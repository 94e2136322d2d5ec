//! The decision on one attack event.
//!
//! An event is first read: its victim must be an IP address and its ports a
//! list of port numbers. Then, in this order and stopping at the first that
//! refuses: the safelist, the owner of the victim, the playbooks, the
//! guardrails. What is left is held against the mitigation that holds the
//! same scope at this POP already: where there is none, the quotas decide
//! whether a new one is created; where there is one, it is refreshed, or
//! stepped up to a stronger action.
//!
//! A decision changes nothing. It says what is to be stored.

use vstd::prelude::*;
use vstd::string::StringExecFns;

use crate::action::{rate_matches_kind, stronger, Action};
use crate::config::{
    after_seconds, before_seconds, instant_after, seconds, Config, Escalation, Guardrails,
    PolicyProfile, Quotas, Timers,
};
use crate::domain::{
    clone_opt_text, clone_ports, holds_scope, opt_text, vector_of_name, ActionParams, ActionType, AttackEvent,
    AttackEventView, AttackVector, MatchCriteria, MatchCriteriaView, Mitigation, MitigationStatus,
    MitigationView,
};
use crate::guardrails::{guardrail_name, validate_with, verdict_with, GuardrailError, MatchFeatures};
use crate::inventory::{opt_owner, owner_of, CustomerView, Inventory, Owner, OwnerView};
use crate::json::{json_ports, parse_ports};
use crate::net::{host_prefix, host_prefix_of, ip_addr_parse, parse_ip_addr, IpAddress};
use crate::playbook::{
    action_for, playbook_views, select_step, selected_step, step_action, Attack, AttackView,
    Playbook, PlaybookView,
};
use crate::quota::{check_quota, quota_verdict, scope_name, QuotaCounts, QuotaScope};
use crate::repository::{
    active, active_at_pop, active_for_customer, active_in_scope, created_since, Repository,
    RepositoryView,
};
use crate::safelist::safelisted;
use crate::scope::{canonical_scope, key_of, Scope};
use crate::search::{lookup, position};

verus! {

/// What decides: the configuration of this POP, the customers and the
/// playbooks.
#[derive(Debug)]
pub struct Engine {
    pub config: Config,
    pub inventory: Inventory,
    pub playbooks: Vec<Playbook>,
}

/// The mathematical content of an [`Engine`].
pub struct EngineView {
    pub pop: Seq<char>,
    pub timers: Timers,
    pub guardrails: Guardrails,
    pub quotas: Quotas,
    pub escalation: Escalation,
    pub require_known_victim: bool,
    pub customers: Seq<CustomerView>,
    pub playbooks: Seq<PlaybookView>,
}

impl View for Engine {
    type V = EngineView;

    open spec fn view(&self) -> EngineView {
        EngineView {
            pop: self.config.pop@,
            timers: self.config.timers,
            guardrails: self.config.guardrails,
            quotas: self.config.quotas,
            escalation: self.config.escalation,
            require_known_victim: self.config.require_known_victim,
            customers: self.inventory@,
            playbooks: playbook_views(self.playbooks@),
        }
    }
}

/// Why an event leads to no mitigation.
#[derive(Clone, Copy, Debug, PartialEq, Eq, Structural)]
pub enum RejectReason {
    /// The victim is no IP address, or the ports are no list of ports.
    InvalidEvent,
    SafelistVeto,
    UnknownVictim,
    NoPlaybook,
    GuardrailViolation(GuardrailError),
    QuotaExceeded(QuotaScope),
}

/// What is to be done about an event.
#[derive(Debug)]
pub enum Decision {
    /// Store this mitigation and announce it.
    CreateNew(Mitigation),
    /// Store this mitigation in place of the one with its identifier; do not
    /// announce again.
    Refresh(Mitigation),
    /// Store the first in place of the one with its identifier, which starts
    /// its withdrawal, and store and announce the second.
    Escalate(Mitigation, Mitigation),
    /// Store this rejected mitigation, if there is one, and announce
    /// nothing.
    Reject(RejectReason, Option<Mitigation>),
}

/// The mathematical content of a [`Decision`].
pub enum DecisionView {
    CreateNew(MitigationView),
    Refresh(MitigationView),
    Escalate(MitigationView, MitigationView),
    Reject(RejectReason, Option<MitigationView>),
}

impl View for Decision {
    type V = DecisionView;

    open spec fn view(&self) -> DecisionView {
        match *self {
            Decision::CreateNew(m) => DecisionView::CreateNew(m@),
            Decision::Refresh(m) => DecisionView::Refresh(m@),
            Decision::Escalate(from, to) => DecisionView::Escalate(from@, to@),
            Decision::Reject(reason, row) => DecisionView::Reject(
                reason,
                match row {
                    Some(m) => Some(m@),
                    None => None,
                },
            ),
        }
    }
}

/// The reason of a rejection as it is written into the rejected mitigation.
pub open spec fn reason_text(reason: RejectReason) -> Seq<char> {
    match reason {
        RejectReason::InvalidEvent => "InvalidEvent"@,
        RejectReason::SafelistVeto => "SafelistVeto"@,
        RejectReason::UnknownVictim => "UnknownVictim"@,
        RejectReason::NoPlaybook => "NoPlaybook"@,
        RejectReason::GuardrailViolation(e) => "GuardrailViolation:"@ + guardrail_name(e),
        RejectReason::QuotaExceeded(s) => "QuotaExceeded:"@ + scope_name(s),
    }
}

/// What is appended to a victim's address to make the prefix that holds it
/// alone.
pub open spec fn host_suffix(victim: IpAddress) -> Seq<char> {
    match victim {
        IpAddress::V4(_) => "/32"@,
        IpAddress::V6(_) => "/128"@,
    }
}

/// The customer of an owner, if there is an owner.
pub open spec fn customer_of(owner: Option<OwnerView>) -> Option<Seq<char>> {
    match owner {
        Some(o) => Some(o.customer_id),
        None => None,
    }
}

/// The service of an owner, if there is an owner and a service.
pub open spec fn service_of(owner: Option<OwnerView>) -> Option<Seq<char>> {
    match owner {
        Some(o) => o.service_id,
        None => None,
    }
}

/// The policy profile of an owner; normal where there is no owner.
pub open spec fn profile_of(owner: Option<OwnerView>) -> PolicyProfile {
    match owner {
        Some(o) => o.policy_profile,
        None => PolicyProfile::Normal,
    }
}

/// The service ports of an owner; none where there is no owner.
pub open spec fn service_ports_of(owner: Option<OwnerView>) -> Seq<u16> {
    match owner {
        Some(o) => o.service_ports,
        None => Seq::empty(),
    }
}

/// The key of the scope of an event: the victim alone, the event's
/// protocol, the event's ports.
pub open spec fn event_scope_key(victim: IpAddress, protocol: Option<u8>, ports: Seq<u16>) -> Seq<
    char,
> {
    key_of(canonical_scope(host_prefix(victim), protocol, ports))
}

/// The mitigation that an event leads to, before it is known whether it is
/// created or rejected: a rejected mitigation without a reason, which
/// discards, and was withdrawn the instant it was made.
pub open spec fn draft(
    pop: Seq<char>,
    event: AttackEventView,
    victim: IpAddress,
    ports: Seq<u16>,
    owner: Option<OwnerView>,
    now: i64,
    new_id: u128,
) -> MitigationView {
    MitigationView {
        mitigation_id: new_id,
        scope_hash: event_scope_key(victim, event.protocol, ports),
        pop,
        customer_id: customer_of(owner),
        service_id: service_of(owner),
        victim_ip: event.victim_ip,
        vector: vector_of_name(event.vector),
        match_criteria: MatchCriteriaView {
            dst_prefix: event.victim_ip + host_suffix(victim),
            protocol: event.protocol,
            dst_ports: ports,
        },
        action_type: ActionType::Discard,
        action_params: ActionParams { rate_bps: None },
        status: MitigationStatus::Rejected,
        created_at: now,
        updated_at: now,
        expires_at: now,
        withdrawn_at: Some(now),
        triggering_event_id: event.event_id,
        last_event_id: event.event_id,
        escalated_from_id: None,
        reason: event.vector,
        rejection_reason: None,
    }
}

/// A draft rejected for a reason.
pub open spec fn rejected(base: MitigationView, reason: RejectReason) -> MitigationView {
    MitigationView { rejection_reason: Some(reason_text(reason)), ..base }
}

/// A draft turned into a new mitigation: pending, with the action, and
/// expiring `ttl` seconds after `now`.
pub open spec fn created(base: MitigationView, action: Action, ttl: u32, now: i64) -> MitigationView {
    MitigationView {
        action_type: action.kind,
        action_params: action.params,
        status: MitigationStatus::Pending,
        expires_at: instant_after(now, seconds(ttl)),
        withdrawn_at: None,
        ..base
    }
}

/// A stored mitigation refreshed by an event: it expires `ttl` seconds after
/// `now`, unless it expires later already.
pub open spec fn refreshed(m: MitigationView, event_id: u128, ttl: u32, now: i64) -> MitigationView {
    MitigationView {
        expires_at: if m.expires_at > instant_after(now, seconds(ttl)) {
            m.expires_at
        } else {
            instant_after(now, seconds(ttl))
        },
        last_event_id: event_id,
        updated_at: now,
        ..m
    }
}

/// A stored mitigation that starts its withdrawal.
pub open spec fn withdrawing(m: MitigationView, now: i64) -> MitigationView {
    MitigationView { status: MitigationStatus::Withdrawing, updated_at: now, ..m }
}

/// For how many whole seconds a mitigation has existed at `now`.
pub open spec fn age_seconds(m: MitigationView, now: i64) -> u32 {
    if now <= m.created_at {
        0u32
    } else if (now - m.created_at) / 1_000_000 > u32::MAX {
        u32::MAX
    } else {
        ((now - m.created_at) / 1_000_000) as u32
    }
}

/// The counters that the quotas are held against.
pub open spec fn counts_for(
    rows: Seq<MitigationView>,
    owner: Option<OwnerView>,
    pop: Seq<char>,
    now: i64,
) -> QuotaCounts {
    QuotaCounts {
        customer: match owner {
            Some(o) => Some(rows.filter(active_for_customer(o.customer_id)).len() as u32),
            None => None,
        },
        pop: rows.filter(active_at_pop(pop)).len() as u32,
        global: rows.filter(active()).len() as u32,
        new_per_minute: rows.filter(created_since(pop, instant_after(now, -seconds(60)))).len() as u32,
    }
}

/// Whether a stored mitigation is stepped up to `action`: stepping up is
/// switched on, the stored mitigation is active, the action is strictly
/// stronger than the stored one, the stored mitigation has existed for long
/// enough and the event is confident enough.
pub open spec fn escalates(
    config: Escalation,
    stored: MitigationView,
    action: Action,
    confidence: Option<u32>,
    now: i64,
) -> bool {
    &&& config.enabled
    &&& stored.status == MitigationStatus::Active
    &&& stronger(action, Action { kind: stored.action_type, params: stored.action_params })
    &&& age_seconds(stored, now) >= config.min_persistence_seconds
    &&& confidence is Some
    &&& confidence->0 >= config.min_confidence
}

/// The time to live of a mitigation that another was stepped up to.
pub open spec fn escalated_ttl(config: Escalation, ttl: u32) -> u32 {
    if ttl > config.max_escalated_duration_seconds {
        config.max_escalated_duration_seconds
    } else {
        ttl
    }
}

/// What is decided about an event that passed the safelist, the playbooks
/// and the guardrails: where no mitigation holds the scope, a new one is
/// created if the quotas allow it; where one does, it is stepped up or
/// refreshed.
pub open spec fn settled(
    escalation: Escalation,
    quota: Result<(), QuotaScope>,
    base: MitigationView,
    existing: Option<MitigationView>,
    action: Action,
    ttl: u32,
    event: AttackEventView,
    now: i64,
) -> DecisionView {
    match existing {
        None => match quota {
            Err(scope) => DecisionView::Reject(
                RejectReason::QuotaExceeded(scope),
                Some(rejected(base, RejectReason::QuotaExceeded(scope))),
            ),
            Ok(_) => DecisionView::CreateNew(created(base, action, ttl, now)),
        },
        Some(stored) => if escalates(escalation, stored, action, event.confidence, now) {
            DecisionView::Escalate(
                withdrawing(stored, now),
                MitigationView {
                    escalated_from_id: Some(stored.mitigation_id),
                    ..created(base, action, escalated_ttl(escalation, ttl), now)
                },
            )
        } else {
            DecisionView::Refresh(refreshed(stored, event.event_id, ttl, now))
        },
    }
}

/// What is decided about an event for which a playbook step was selected:
/// the guardrails refuse it, or it is settled.
pub open spec fn checked(
    engine: EngineView,
    rows: Seq<MitigationView>,
    event: AttackEventView,
    victim: IpAddress,
    ports: Seq<u16>,
    owner: Option<OwnerView>,
    base: MitigationView,
    existing: Option<MitigationView>,
    action: Action,
    ttl: u32,
    now: i64,
) -> DecisionView {
    let verdict = verdict_with(
        engine.guardrails,
        Some(host_prefix(victim)),
        victim,
        ports.len() as int,
        MatchFeatures { src_prefix: false, tcp_flags: false, fragment: false, packet_length: false },
        action.kind,
        action.params,
        Some(ttl),
    );
    match verdict {
        Err(e) => DecisionView::Reject(
            RejectReason::GuardrailViolation(e),
            Some(rejected(base, RejectReason::GuardrailViolation(e))),
        ),
        Ok(_) => settled(
            engine.escalation,
            quota_verdict(engine.quotas, counts_for(rows, owner, engine.pop, now)),
            base,
            existing,
            action,
            ttl,
            event,
            now,
        ),
    }
}

/// The mitigation that holds the scope of an event at this POP, if one
/// does.
pub open spec fn holder(
    engine: EngineView,
    rows: Seq<MitigationView>,
    event: AttackEventView,
    victim: IpAddress,
    ports: Seq<u16>,
) -> Option<MitigationView> {
    lookup(rows, active_in_scope(event_scope_key(victim, event.protocol, ports), engine.pop))
}

/// The playbook step that answers an event.
pub open spec fn step_for(
    engine: EngineView,
    rows: Seq<MitigationView>,
    event: AttackEventView,
    victim: IpAddress,
    ports: Seq<u16>,
    now: i64,
) -> Option<crate::playbook::PlaybookStep> {
    selected_step(
        engine.playbooks,
        AttackView {
            vector: vector_of_name(event.vector),
            top_ports: ports,
            confidence: event.confidence,
            persistence_seconds: match holder(engine, rows, event, victim, ports) {
                Some(m) => Some(age_seconds(m, now)),
                None => None,
            },
            service_ports: service_ports_of(owner_of(engine.customers, victim)),
        },
    )
}

/// What is decided about an event whose victim and ports were read.
pub open spec fn decision_on(
    engine: EngineView,
    repo: RepositoryView,
    event: AttackEventView,
    victim: IpAddress,
    ports: Seq<u16>,
    now: i64,
    new_id: u128,
) -> DecisionView {
    let owner = owner_of(engine.customers, victim);
    let base = draft(engine.pop, event, victim, ports, owner, now, new_id);
    let step = step_for(engine, repo.mitigations, event, victim, ports, now);
    if safelisted(repo.safelist, event.victim_ip, now) {
        DecisionView::Reject(
            RejectReason::SafelistVeto,
            Some(rejected(base, RejectReason::SafelistVeto)),
        )
    } else if owner is None && engine.require_known_victim {
        DecisionView::Reject(
            RejectReason::UnknownVictim,
            Some(rejected(base, RejectReason::UnknownVictim)),
        )
    } else if step is None {
        DecisionView::Reject(RejectReason::NoPlaybook, Some(rejected(base, RejectReason::NoPlaybook)))
    } else {
        checked(
            engine,
            repo.mitigations,
            event,
            victim,
            ports,
            owner,
            base,
            holder(engine, repo.mitigations, event, victim, ports),
            action_for(step->0, profile_of(owner)),
            engine.timers.ttl_for(step->0.ttl_seconds, profile_of(owner)),
            now,
        )
    }
}

/// What is decided about an event, given what its victim and its ports
/// were read as.
pub open spec fn decision_with(
    engine: EngineView,
    repo: RepositoryView,
    event: AttackEventView,
    victim: Option<IpAddress>,
    ports: Option<Seq<u16>>,
    now: i64,
    new_id: u128,
) -> DecisionView {
    if victim is None || ports is None {
        DecisionView::Reject(RejectReason::InvalidEvent, None)
    } else {
        decision_on(engine, repo, event, victim->0, ports->0, now, new_id)
    }
}

/// What is decided about an event.
pub open spec fn decision_for(
    engine: EngineView,
    repo: RepositoryView,
    event: AttackEventView,
    now: i64,
    new_id: u128,
) -> DecisionView {
    decision_with(
        engine,
        repo,
        event,
        ip_addr_parse(event.victim_ip),
        json_ports(event.top_dst_ports_json),
        now,
        new_id,
    )
}

/// What holds of every decision about an event that is decided at `now` at
/// the POP `pop` under the identifier `new_id`.
///
/// A mitigation that is created, or stepped up to, is pending, belongs to
/// this POP, carries the new identifier, was created now, has a rate
/// exactly when it polices, and is not stamped as withdrawn; one that is
/// stepped up to names the mitigation it was stepped up from, which starts
/// its withdrawal. A mitigation that is rejected is stamped as withdrawn and
/// says why. A mitigation that is refreshed keeps its identifier, its
/// status, its scope and its action, and does not expire earlier than
/// before.
pub open spec fn sound(
    d: DecisionView,
    rows: Seq<MitigationView>,
    pop: Seq<char>,
    now: i64,
    new_id: u128,
) -> bool {
    match d {
        DecisionView::CreateNew(m) => {
            &&& m.status == MitigationStatus::Pending
            &&& m.pop == pop
            &&& m.mitigation_id == new_id
            &&& m.created_at == now
            &&& m.withdrawn_at is None
            &&& m.escalated_from_id is None
            &&& rate_matches_kind(m.action_type, m.action_params)
        },
        DecisionView::Escalate(from, to) => {
            &&& to.status == MitigationStatus::Pending
            &&& to.pop == pop
            &&& to.mitigation_id == new_id
            &&& to.created_at == now
            &&& to.withdrawn_at is None
            &&& rate_matches_kind(to.action_type, to.action_params)
            &&& to.escalated_from_id == Some(from.mitigation_id)
            &&& to.scope_hash == from.scope_hash
            &&& from.pop == pop
            &&& from.status == MitigationStatus::Withdrawing
            &&& stronger(
                Action { kind: to.action_type, params: to.action_params },
                Action { kind: from.action_type, params: from.action_params },
            )
            &&& exists|i: int|
                0 <= i < rows.len() && from == withdrawing(#[trigger] rows[i], now) && rows[i].status
                    == MitigationStatus::Active
        },
        DecisionView::Refresh(m) => exists|i: int|
            0 <= i < rows.len() && {
                let stored = #[trigger] rows[i];
                &&& m.mitigation_id == stored.mitigation_id
                &&& m.status == stored.status
                &&& holds_scope(stored.status)
                &&& m.scope_hash == stored.scope_hash
                &&& m.pop == pop
                &&& m.action_type == stored.action_type
                &&& m.action_params == stored.action_params
                &&& m.created_at == stored.created_at
                &&& m.withdrawn_at == stored.withdrawn_at
                &&& m.expires_at >= stored.expires_at
                &&& m.updated_at == now
            },
        DecisionView::Reject(reason, Some(m)) => {
            &&& m.status == MitigationStatus::Rejected
            &&& m.mitigation_id == new_id
            &&& m.withdrawn_at == Some(now)
            &&& m.rejection_reason == Some(reason_text(reason))
            &&& reason != RejectReason::InvalidEvent
        },
        DecisionView::Reject(reason, None) => reason == RejectReason::InvalidEvent,
    }
}

/// Whether the life of a mitigation that a decision creates is as long as
/// the timers allow: at least the shortest and at most the longest time to
/// live. A mitigation that is stepped up to lives no longer than stepped-up
/// mitigations may.
pub open spec fn timely(d: DecisionView, timers: Timers, escalation: Escalation) -> bool {
    match d {
        DecisionView::CreateNew(m) => seconds(timers.min_ttl_seconds) <= m.expires_at
            - m.created_at <= seconds(timers.max_ttl_seconds),
        DecisionView::Escalate(_, to) => {
            &&& to.expires_at - to.created_at <= seconds(timers.max_ttl_seconds)
            &&& to.expires_at - to.created_at <= seconds(escalation.max_escalated_duration_seconds)
            &&& escalation.max_escalated_duration_seconds >= timers.min_ttl_seconds ==> seconds(
                timers.min_ttl_seconds,
            ) <= to.expires_at - to.created_at
        },
        _ => true,
    }
}

/// What is settled about an event is sound, and timely if the time to live
/// is in range and the clock is not at its end.
proof fn lemma_settled_is_sound(
    escalation: Escalation,
    timers: Timers,
    quota: Result<(), QuotaScope>,
    base: MitigationView,
    rows: Seq<MitigationView>,
    action: Action,
    ttl: u32,
    event: AttackEventView,
    now: i64,
)
    requires
        base.status == MitigationStatus::Rejected,
        base.withdrawn_at == Some(now),
        base.created_at == now,
        base.escalated_from_id is None,
        rate_matches_kind(action.kind, action.params),
    ensures
        sound(
            settled(
                escalation,
                quota,
                base,
                lookup(rows, active_in_scope(base.scope_hash, base.pop)),
                action,
                ttl,
                event,
                now,
            ),
            rows,
            base.pop,
            now,
            base.mitigation_id,
        ),
        timers.min_ttl_seconds <= ttl <= timers.max_ttl_seconds && now + seconds(
            timers.max_ttl_seconds,
        ) <= i64::MAX ==> timely(
            settled(
                escalation,
                quota,
                base,
                lookup(rows, active_in_scope(base.scope_hash, base.pop)),
                action,
                ttl,
                event,
                now,
            ),
            timers,
            escalation,
        ),
{
    let pred = active_in_scope(base.scope_hash, base.pop);
    crate::search::lemma_first_where(rows, pred, 0);
    let existing = lookup(rows, pred);
    assert(seconds(timers.min_ttl_seconds) <= seconds(timers.max_ttl_seconds) <==> timers.min_ttl_seconds
        <= timers.max_ttl_seconds);
    match existing {
        Some(stored) => {
            let p = position(rows, pred);
            assert(rows[p] == stored);
            assert(pred(stored));
        },
        None => {},
    }
}

/// Every decision is sound, and the mitigations it creates live as long as
/// the timers allow, if the shortest time to live is not above the longest
/// and the clock is not at its end.
pub proof fn lemma_decision_is_sound(
    engine: EngineView,
    repo: RepositoryView,
    event: AttackEventView,
    victim: Option<IpAddress>,
    ports: Option<Seq<u16>>,
    now: i64,
    new_id: u128,
)
    ensures
        sound(
            decision_with(engine, repo, event, victim, ports, now, new_id),
            repo.mitigations,
            engine.pop,
            now,
            new_id,
        ),
        engine.timers.min_ttl_seconds <= engine.timers.max_ttl_seconds && now + seconds(
            engine.timers.max_ttl_seconds,
        ) <= i64::MAX ==> timely(
            decision_with(engine, repo, event, victim, ports, now, new_id),
            engine.timers,
            engine.escalation,
        ),
{
    if victim is Some && ports is Some {
        let v = victim->0;
        let p = ports->0;
        let owner = owner_of(engine.customers, v);
        let base = draft(engine.pop, event, v, p, owner, now, new_id);
        let step = step_for(engine, repo.mitigations, event, v, p, now);
        if step is Some {
            let action = action_for(step->0, profile_of(owner));
            let ttl = engine.timers.ttl_for(step->0.ttl_seconds, profile_of(owner));
            let verdict = verdict_with(
                engine.guardrails,
                Some(host_prefix(v)),
                v,
                p.len() as int,
                MatchFeatures {
                    src_prefix: false,
                    tcp_flags: false,
                    fragment: false,
                    packet_length: false,
                },
                action.kind,
                action.params,
                Some(ttl),
            );
            if verdict is Ok {
                crate::playbook::lemma_action_for_rate(step->0, profile_of(owner));
                assert(rate_matches_kind(action.kind, action.params));
                if engine.timers.min_ttl_seconds <= engine.timers.max_ttl_seconds {
                    assert(engine.timers.min_ttl_seconds <= ttl <= engine.timers.max_ttl_seconds);
                }
                lemma_settled_is_sound(
                    engine.escalation,
                    engine.timers,
                    quota_verdict(
                        engine.quotas,
                        counts_for(repo.mitigations, owner, engine.pop, now),
                    ),
                    base,
                    repo.mitigations,
                    action,
                    ttl,
                    event,
                    now,
                );
            }
        }
    }
}

impl RejectReason {
    /// The reason as it is written into the rejected mitigation.
    pub fn to_text(&self) -> (text: String)
        ensures
            text@ == reason_text(*self),
    {
        match self {
            RejectReason::InvalidEvent => "InvalidEvent".to_owned(),
            RejectReason::SafelistVeto => "SafelistVeto".to_owned(),
            RejectReason::UnknownVictim => "UnknownVictim".to_owned(),
            RejectReason::NoPlaybook => "NoPlaybook".to_owned(),
            RejectReason::GuardrailViolation(e) => "GuardrailViolation:".to_owned().concat(
                e.as_str(),
            ),
            RejectReason::QuotaExceeded(s) => "QuotaExceeded:".to_owned().concat(s.as_str()),
        }
    }
}

/// For how many whole seconds a mitigation has existed at `now`.
pub fn age_of(m: &Mitigation, now: i64) -> (age: u32)
    ensures
        age == age_seconds(m@, now),
{
    if now <= m.created_at {
        0
    } else {
        let span: i128 = (now as i128 - m.created_at as i128) / 1_000_000;
        if span > 0xffff_ffff {
            0xffff_ffff
        } else {
            span as u32
        }
    }
}

/// Builds a draft.
fn build_draft(
    pop: &str,
    event: &AttackEvent,
    victim: IpAddress,
    ports: &Vec<u16>,
    owner: &Option<Owner>,
    now: i64,
    new_id: u128,
) -> (m: Mitigation)
    ensures
        m@ == draft(pop@, event@, victim, ports@, opt_owner(*owner), now, new_id),
{
    let suffix = match victim {
        IpAddress::V4(_) => "/32",
        IpAddress::V6(_) => "/128",
    };
    let (customer_id, service_id) = match owner {
        Some(o) => (Some(o.customer_id.clone()), clone_opt_text(&o.service_id)),
        None => (None, None),
    };
    Mitigation {
        mitigation_id: new_id,
        scope_hash: Scope::new(host_prefix_of(victim), event.protocol, ports).key(),
        pop: pop.to_owned(),
        customer_id,
        service_id,
        victim_ip: event.victim_ip.clone(),
        vector: AttackVector::from_name(event.vector.as_str()),
        match_criteria: MatchCriteria {
            dst_prefix: event.victim_ip.clone().concat(suffix),
            protocol: event.protocol,
            dst_ports: clone_ports(ports),
        },
        action_type: ActionType::Discard,
        action_params: ActionParams { rate_bps: None },
        status: MitigationStatus::Rejected,
        created_at: now,
        updated_at: now,
        expires_at: now,
        withdrawn_at: Some(now),
        triggering_event_id: event.event_id,
        last_event_id: event.event_id,
        escalated_from_id: None,
        reason: event.vector.clone(),
        rejection_reason: None,
    }
}

/// Turns a draft into a rejection.
fn reject(base: Mitigation, reason: RejectReason) -> (d: Decision)
    ensures
        d@ == DecisionView::Reject(reason, Some(rejected(base@, reason))),
{
    let mut row = base;
    row.rejection_reason = Some(reason.to_text());
    Decision::Reject(reason, Some(row))
}

/// Turns a draft into a new mitigation.
fn create(base: Mitigation, action: Action, ttl: u32, now: i64) -> (m: Mitigation)
    ensures
        m@ == created(base@, action, ttl, now),
{
    let mut row = base;
    row.action_type = action.kind;
    row.action_params = action.params;
    row.status = MitigationStatus::Pending;
    row.expires_at = after_seconds(now, ttl);
    row.withdrawn_at = None;
    row
}

/// Refreshes a stored mitigation.
fn refresh(stored: Mitigation, event_id: u128, ttl: u32, now: i64) -> (m: Mitigation)
    ensures
        m@ == refreshed(stored@, event_id, ttl, now),
{
    let mut row = stored;
    let until = after_seconds(now, ttl);
    if until > row.expires_at {
        row.expires_at = until;
    }
    row.last_event_id = event_id;
    row.updated_at = now;
    row
}

impl Engine {
    /// The counters that the quotas are held against.
    fn counts(&self, repo: &Repository, owner: &Option<Owner>, now: i64) -> (counts: QuotaCounts)
        ensures
            counts == counts_for(repo@.mitigations, opt_owner(*owner), self@.pop, now),
    {
        let pop = self.config.pop.as_str();
        let customer = match owner {
            Some(o) => match repo.count_active_by_customer(o.customer_id.as_str()) {
                Ok(n) => Some(n),
                Err(_) => None,
            },
            None => None,
        };
        let at_pop = match repo.count_active_by_pop(pop) {
            Ok(n) => n,
            Err(_) => 0,
        };
        let global = match repo.count_active_global() {
            Ok(n) => n,
            Err(_) => 0,
        };
        let new_per_minute = match repo.count_created_since(pop, before_seconds(now, 60)) {
            Ok(n) => n,
            Err(_) => 0,
        };
        QuotaCounts { customer, pop: at_pop, global, new_per_minute }
    }

    /// Decides about an event whose victim and ports were read.
    pub fn decide_on(
        &self,
        repo: &Repository,
        event: &AttackEvent,
        victim: IpAddress,
        ports: &Vec<u16>,
        now: i64,
        new_id: u128,
    ) -> (d: Decision)
        ensures
            d@ == decision_on(self@, repo@, event@, victim, ports@, now, new_id),
    {
        let pop = self.config.pop.as_str();
        let owner = self.inventory.lookup_ip(victim);
        let base = build_draft(pop, event, victim, ports, &owner, now, new_id);
        let safe = match repo.is_safelisted_at(event.victim_ip.as_str(), now) {
            Ok(yes) => yes,
            Err(_) => false,
        };
        if safe {
            return reject(base, RejectReason::SafelistVeto);
        }
        if owner.is_none() && self.config.require_known_victim {
            return reject(base, RejectReason::UnknownVictim);
        }
        let existing = match repo.find_active_by_scope(base.scope_hash.as_str(), pop) {
            Ok(found) => found,
            Err(_) => None,
        };
        let (profile, service_ports) = match &owner {
            Some(o) => (o.policy_profile, clone_ports(&o.service_ports)),
            None => (PolicyProfile::Normal, Vec::new()),
        };
        let attack = Attack {
            vector: base.vector,
            top_ports: clone_ports(ports),
            confidence: event.confidence,
            persistence_seconds: match &existing {
                Some(m) => Some(age_of(m, now)),
                None => None,
            },
            service_ports,
        };
        let step = match select_step(&self.playbooks, &attack) {
            Some(step) => step,
            None => {
                return reject(base, RejectReason::NoPlaybook);
            },
        };
        let action = step_action(&step, profile);
        let ttl = self.config.timers.ttl(step.ttl_seconds, profile);
        let checked = validate_with(
            &self.config.guardrails,
            Some(host_prefix_of(victim)),
            victim,
            ports.len(),
            MatchFeatures::none(),
            action.kind,
            action.params,
            Some(ttl),
        );
        match checked {
            Err(e) => {
                return reject(base, RejectReason::GuardrailViolation(e));
            },
            Ok(_) => {},
        }
        match existing {
            None => {
                let counts = self.counts(repo, &owner, now);
                match check_quota(&self.config.quotas, &counts) {
                    Err(scope) => reject(base, RejectReason::QuotaExceeded(scope)),
                    Ok(_) => Decision::CreateNew(create(base, action, ttl, now)),
                }
            },
            Some(stored) => {
                let esc = &self.config.escalation;
                let old = Action { kind: stored.action_type, params: stored.action_params };
                let confident = match event.confidence {
                    Some(c) => c >= esc.min_confidence,
                    None => false,
                };
                let is_active = match stored.status {
                    MitigationStatus::Active => true,
                    _ => false,
                };
                if esc.enabled && is_active && action.is_stronger_than(&old) && age_of(&stored, now)
                    >= esc.min_persistence_seconds && confident {
                    let capped = if ttl > esc.max_escalated_duration_seconds {
                        esc.max_escalated_duration_seconds
                    } else {
                        ttl
                    };
                    let mut to = create(base, action, capped, now);
                    to.escalated_from_id = Some(stored.mitigation_id);
                    let mut from = stored;
                    from.status = MitigationStatus::Withdrawing;
                    from.updated_at = now;
                    Decision::Escalate(from, to)
                } else {
                    Decision::Refresh(refresh(stored, event.event_id, ttl, now))
                }
            },
        }
    }

    /// Decides about an event, given what its victim and its ports were
    /// read as.
    pub fn decide_with(
        &self,
        repo: &Repository,
        event: &AttackEvent,
        victim: Option<IpAddress>,
        ports: Option<Vec<u16>>,
        now: i64,
        new_id: u128,
    ) -> (d: Decision)
        ensures
            d@ == decision_with(
                self@,
                repo@,
                event@,
                victim,
                crate::json::opt_ports(ports),
                now,
                new_id,
            ),
    {
        match (victim, ports) {
            (Some(v), Some(p)) => self.decide_on(repo, event, v, &p, now, new_id),
            _ => Decision::Reject(RejectReason::InvalidEvent, None),
        }
    }

    /// Decides about an event. `new_id` is the identifier of the mitigation
    /// that is stored for the event, if one is.
    pub fn decide(&self, repo: &Repository, event: &AttackEvent, now: i64, new_id: u128) -> (d:
        Decision)
        ensures
            d@ == decision_for(self@, repo@, event@, now, new_id),
    {
        let victim = parse_ip_addr(event.victim_ip.as_str());
        let ports = parse_ports(event.top_dst_ports_json.as_str());
        self.decide_with(repo, event, victim, ports, now, new_id)
    }
}

} // verus!

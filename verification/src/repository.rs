//! The store of events, mitigations, audit lines and safelist entries.
//!
//! The repository keeps four tables in memory and answers the queries of the
//! control plane over them. Its view is the four tables as sequences of row
//! views, in the order in which the rows were stored. Every query is stated
//! over that view.
//!
//! The repository keeps its keys unique: no two events share an identifier or
//! a detector's identifier, no two mitigations share an identifier, no two
//! audit lines share an identifier, no two safelist entries share a prefix.
//! And no two mitigations that hold their scope share scope and POP.

use vstd::prelude::*;

use crate::audit::{entry_of_row, AuditEntry, AuditEntryView, AuditRow, AuditRowView, row_of_entry};
use crate::clock::now_micros;
use crate::domain::{
    clone_opt_text, holds_scope, is_announced, opt_text, AttackEvent, AttackEventView, Mitigation,
    MitigationStatus, MitigationView,
};
use crate::listing::{listing, listing_order, page, positions, RowKey};
use crate::safelist::{
    entry_views, safelist_covers, safelisted, SafelistEntry, SafelistEntryView,
};
use crate::stats::{
    global_stats, global_stats_of, pop_info_views, pop_infos, pop_infos_of, GlobalStats, PopInfo,
};
use crate::search::{
    any, lemma_filter_step, lemma_first_where, lemma_first_where_is, lookup, position,
};
use crate::text::str_eq;

verus! {

/// The kind of database whose behaviour the repository follows where the
/// kinds differ.
#[derive(Clone, Copy, Debug, PartialEq, Eq, Structural)]
pub enum DbPool {
    Sqlite,
    Postgres,
}

/// Why the repository refused to store a row.
#[derive(Clone, Copy, Debug, PartialEq, Eq, Structural)]
pub enum StoreError {
    /// A row with the same key is stored already.
    DuplicateKey,
    /// Another mitigation holds the same scope at the same POP.
    ConflictingMitigation,
}

/// The store of the control plane.
pub struct Repository {
    pool: DbPool,
    events: Vec<AttackEvent>,
    audit: Vec<AuditRow>,
    mitigations: Vec<Mitigation>,
    safelist: Vec<SafelistEntry>,
}

/// The mathematical content of a [`Repository`]: its tables, each in the
/// order in which its rows were stored.
pub struct RepositoryView {
    pub pool: DbPool,
    pub events: Seq<AttackEventView>,
    pub audit: Seq<AuditRowView>,
    pub mitigations: Seq<MitigationView>,
    pub safelist: Seq<SafelistEntryView>,
}

/// The views of a list of events, in order.
pub open spec fn event_views(events: Seq<AttackEvent>) -> Seq<AttackEventView> {
    events.map_values(|e: AttackEvent| e@)
}

/// The views of a list of mitigations, in order.
pub open spec fn mitigation_views(rows: Seq<Mitigation>) -> Seq<MitigationView> {
    rows.map_values(|m: Mitigation| m@)
}

/// The views of a list of audit rows, in order.
pub open spec fn audit_row_views(rows: Seq<AuditRow>) -> Seq<AuditRowView> {
    rows.map_values(|r: AuditRow| r@)
}

/// The views of a list of audit entries, in order.
pub open spec fn audit_entry_views(entries: Seq<AuditEntry>) -> Seq<AuditEntryView> {
    entries.map_values(|e: AuditEntry| e@)
}

/// Whether two events cannot both be stored: they share an identifier, or
/// they share a source and a detector's identifier.
pub open spec fn events_clash(a: AttackEventView, b: AttackEventView) -> bool {
    a.event_id == b.event_id || (b.external_event_id is Some && a.source == b.source
        && a.external_event_id == b.external_event_id)
}

/// The events that cannot be stored beside `event`.
pub open spec fn clashes_with(event: AttackEventView) -> spec_fn(AttackEventView) -> bool {
    |stored: AttackEventView| events_clash(stored, event)
}

/// The events of one source with one detector's identifier.
pub open spec fn has_external_id(source: Seq<char>, external_id: Seq<char>) -> spec_fn(
    AttackEventView,
) -> bool {
    |e: AttackEventView| e.source == source && e.external_event_id == Some(external_id)
}

/// The keys by which events are listed: all of them, by the instant they
/// were ingested.
pub open spec fn event_keys(events: Seq<AttackEventView>) -> Seq<RowKey> {
    Seq::new(
        events.len(),
        |i: int| RowKey { selected: true, at: events[i].ingested_at, id: events[i].event_id },
    )
}

/// The rows of a table at the given positions, in that order.
pub open spec fn rows_at<T>(rows: Seq<T>, order: Seq<int>) -> Seq<T> {
    order.map_values(|i: int| rows[i])
}

/// The audit lines with one identifier.
pub open spec fn has_audit_id(audit_id: u128) -> spec_fn(AuditRowView) -> bool {
    |row: AuditRowView| row.audit_id == audit_id
}

/// The keys by which audit lines are listed: all of them, by their
/// timestamp.
pub open spec fn audit_keys(rows: Seq<AuditRowView>) -> Seq<RowKey> {
    Seq::new(
        rows.len(),
        |i: int| RowKey { selected: true, at: rows[i].timestamp, id: rows[i].audit_id },
    )
}

/// The entries that a list of audit rows stands for, in order.
pub open spec fn entries_of_rows(rows: Seq<AuditRowView>) -> Seq<AuditEntryView> {
    rows.map_values(|row: AuditRowView| entry_of_row(row))
}

/// Whether two mitigations share scope and POP.
pub open spec fn same_scope(a: MitigationView, b: MitigationView) -> bool {
    a.scope_hash == b.scope_hash && a.pop == b.pop
}

/// Whether two mitigations cannot both be stored as they are: both hold
/// their scope, and it is the same scope at the same POP.
pub open spec fn scopes_collide(a: MitigationView, b: MitigationView) -> bool {
    holds_scope(a.status) && holds_scope(b.status) && same_scope(a, b)
}

impl RepositoryView {
    /// No two events share an identifier or a detector's identifier.
    pub open spec fn events_wf(self) -> bool {
        forall|i: int, j: int|
            0 <= i < self.events.len() && 0 <= j < self.events.len() && i != j ==> !events_clash(
                #[trigger] self.events[i],
                #[trigger] self.events[j],
            )
    }

    /// No two audit lines share an identifier.
    pub open spec fn audit_wf(self) -> bool {
        forall|i: int, j: int|
            0 <= i < self.audit.len() && 0 <= j < self.audit.len() && i != j ==> (
            #[trigger] self.audit[i]).audit_id != (#[trigger] self.audit[j]).audit_id
    }

    /// No two mitigations share an identifier, and no two that hold their
    /// scope share scope and POP.
    pub open spec fn mitigations_wf(self) -> bool {
        forall|i: int, j: int|
            0 <= i < self.mitigations.len() && 0 <= j < self.mitigations.len() && i != j ==> {
                &&& (#[trigger] self.mitigations[i]).mitigation_id != (
                #[trigger] self.mitigations[j]).mitigation_id
                &&& !scopes_collide(self.mitigations[i], self.mitigations[j])
            }
    }

    /// No two safelist entries share a prefix.
    pub open spec fn safelist_wf(self) -> bool {
        forall|i: int, j: int|
            0 <= i < self.safelist.len() && 0 <= j < self.safelist.len() && i != j ==> (
            #[trigger] self.safelist[i]).prefix != (#[trigger] self.safelist[j]).prefix
    }

    /// What holds of every repository.
    pub open spec fn wf(self) -> bool {
        &&& self.events_wf()
        &&& self.audit_wf()
        &&& self.mitigations_wf()
        &&& self.safelist_wf()
    }
}

impl View for Repository {
    type V = RepositoryView;

    closed spec fn view(&self) -> RepositoryView {
        RepositoryView {
            pool: self.pool,
            events: event_views(self.events@),
            audit: audit_row_views(self.audit@),
            mitigations: mitigation_views(self.mitigations@),
            safelist: entry_views(self.safelist@),
        }
    }
}

/// Tells whether two optional texts are equal.
fn opt_text_eq(a: &Option<String>, b: &Option<String>) -> (same: bool)
    ensures
        same == (opt_text(*a) == opt_text(*b)),
{
    match (a, b) {
        (Some(x), Some(y)) => str_eq(x.as_str(), y.as_str()),
        (None, None) => true,
        _ => false,
    }
}

/// Tells whether an optional text is present and equal to a text.
fn opt_text_is(a: &Option<String>, b: &str) -> (same: bool)
    ensures
        same == (opt_text(*a) == Some(b@)),
{
    match a {
        Some(x) => str_eq(x.as_str(), b),
        None => false,
    }
}

/// Tells whether two events cannot both be stored.
fn clash(stored: &AttackEvent, event: &AttackEvent) -> (yes: bool)
    ensures
        yes == events_clash(stored@, event@),
{
    stored.event_id == event.event_id || (event.external_event_id.is_some() && str_eq(
        stored.source.as_str(),
        event.source.as_str(),
    ) && opt_text_eq(&stored.external_event_id, &event.external_event_id))
}

impl Repository {
    #[verifier::type_invariant]
    spec fn inv(&self) -> bool {
        self@.wf()
    }

    /// An empty repository that follows the given kind of database.
    pub fn new(pool: DbPool) -> (repo: Self)
        ensures
            repo@ == (RepositoryView {
                pool,
                events: Seq::empty(),
                audit: Seq::empty(),
                mitigations: Seq::empty(),
                safelist: Seq::empty(),
            }),
            repo@.wf(),
    {
        let repo = Repository {
            pool,
            events: Vec::new(),
            audit: Vec::new(),
            mitigations: Vec::new(),
            safelist: Vec::new(),
        };
        assert(repo@.events =~= Seq::empty());
        assert(repo@.audit =~= Seq::empty());
        assert(repo@.mitigations =~= Seq::empty());
        assert(repo@.safelist =~= Seq::empty());
        repo
    }

    /// An empty repository that follows SQLite.
    pub fn from_sqlite() -> (repo: Self)
        ensures
            repo@ == (RepositoryView {
                pool: DbPool::Sqlite,
                events: Seq::empty(),
                audit: Seq::empty(),
                mitigations: Seq::empty(),
                safelist: Seq::empty(),
            }),
    {
        Repository::new(DbPool::Sqlite)
    }

    /// An empty repository that follows PostgreSQL.
    pub fn from_postgres() -> (repo: Self)
        ensures
            repo@ == (RepositoryView {
                pool: DbPool::Postgres,
                events: Seq::empty(),
                audit: Seq::empty(),
                mitigations: Seq::empty(),
                safelist: Seq::empty(),
            }),
    {
        Repository::new(DbPool::Postgres)
    }

    /// The kind of database that this repository follows.
    pub fn pool(&self) -> (pool: DbPool)
        ensures
            pool == self@.pool,
    {
        self.pool
    }

    /// Stores an event. An event that shares its identifier, or its source
    /// and detector's identifier, with a stored one is refused, and nothing
    /// changes.
    pub fn insert_event(&mut self, event: &AttackEvent) -> (r: Result<(), StoreError>)
        ensures
            final(self)@.wf(),
            any(old(self)@.events, clashes_with(event@)) ==> r == Err::<(), StoreError>(
                StoreError::DuplicateKey,
            ) && final(self)@ == old(self)@,
            !any(old(self)@.events, clashes_with(event@)) ==> r == Ok::<(), StoreError>(())
                && final(self)@ == (RepositoryView {
                events: old(self)@.events.push(event@),
                ..old(self)@
            }),
    {
        proof {
            use_type_invariant(&*self);
        }
        let ghost before = self@;
        let mut i: usize = 0;
        while i < self.events.len()
            invariant
                i <= self.events.len(),
                self@ == before,
                before.wf(),
                forall|k: int| 0 <= k < i ==> !events_clash(#[trigger] before.events[k], event@),
            decreases self.events.len() - i,
        {
            if clash(&self.events[i], event) {
                assert(clashes_with(event@)(before.events[i as int]));
                return Err(StoreError::DuplicateKey);
            }
            i = i + 1;
        }
        let mut events: Vec<AttackEvent> = Vec::new();
        core::mem::swap(&mut events, &mut self.events);
        events.push(event.clone());
        proof {
            let after = event_views(events@);
            assert(after =~= before.events.push(event@));
            assert forall|a: int, b: int|
                0 <= a < after.len() && 0 <= b < after.len() && a != b implies !events_clash(
                #[trigger] after[a],
                #[trigger] after[b],
            ) by {
                if a < before.events.len() && b < before.events.len() {
                    assert(!events_clash(before.events[a], before.events[b]));
                } else if a < before.events.len() {
                    assert(!events_clash(before.events[a], event@));
                } else {
                    assert(!events_clash(before.events[b], event@));
                }
            }
        }
        self.events = events;
        assert(self@.events == before.events.push(event@));
        Ok(())
    }

    /// The event of one source with one detector's identifier, if it is
    /// stored.
    pub fn find_event_by_external_id(&self, source: &str, external_id: &str) -> (r: Result<
        Option<AttackEvent>,
        StoreError,
    >)
        ensures
            r is Ok,
            opt_event_view(r->Ok_0) == lookup(self@.events, has_external_id(source@, external_id@)),
    {
        let ghost pred = has_external_id(source@, external_id@);
        let mut i: usize = 0;
        while i < self.events.len()
            invariant
                i <= self.events.len(),
                pred == has_external_id(source@, external_id@),
                forall|k: int| 0 <= k < i ==> !pred(#[trigger] self@.events[k]),
            decreases self.events.len() - i,
        {
            let e = &self.events[i];
            if str_eq(e.source.as_str(), source) && opt_text_is(&e.external_event_id, external_id) {
                proof {
                    assert(pred(self@.events[i as int]));
                    lemma_first_where_is(self@.events, pred, 0, i as int);
                }
                return Ok(Some(e.clone()));
            }
            i = i + 1;
        }
        proof {
            lemma_first_where_is(self@.events, pred, 0, i as int);
        }
        Ok(None)
    }

    /// The events, newest first by the instant they were ingested; `limit`
    /// of them after skipping `offset`.
    pub fn list_events(&self, limit: u32, offset: u32) -> (r: Result<Vec<AttackEvent>, StoreError>)
        ensures
            r is Ok,
            event_views(r->Ok_0@) == page(
                rows_at(self@.events, listing(event_keys(self@.events))),
                limit,
                offset,
            ),
    {
        let mut keys: Vec<RowKey> = Vec::new();
        let mut i: usize = 0;
        while i < self.events.len()
            invariant
                i <= self.events.len(),
                keys@ == event_keys(self@.events).subrange(0, i as int),
            decreases self.events.len() - i,
        {
            let e = &self.events[i];
            keys.push(RowKey { selected: true, at: e.ingested_at, id: e.event_id });
            assert(keys@ =~= event_keys(self@.events).subrange(0, i + 1));
            i = i + 1;
        }
        assert(keys@ =~= event_keys(self@.events));
        let order = listing_order(&keys);
        let ghost listed = rows_at(self@.events, positions(order@));
        let (start, end) = page_bounds(order.len(), limit, offset);
        let mut out: Vec<AttackEvent> = Vec::new();
        let mut k: usize = start;
        while k < end
            invariant
                start <= k <= end <= order.len(),
                listed == rows_at(self@.events, positions(order@)),
                crate::listing::is_listing(event_keys(self@.events), positions(order@)),
                event_views(out@) == listed.subrange(start as int, k as int),
            decreases end - k,
        {
            assert(0 <= positions(order@)[k as int] < self@.events.len());
            let ghost earlier = event_views(out@);
            out.push(self.events[order[k]].clone());
            proof {
                let at = order@[k as int] as int;
                assert(positions(order@)[k as int] == at);
                assert(listed[k as int] == self@.events[at]);
                assert(self@.events[at] == self.events@[at]@);
                assert(event_views(out@) =~= earlier.push(self.events@[at]@));
                assert(event_views(out@) =~= listed.subrange(start as int, k + 1));
            }
            k = k + 1;
        }
        Ok(out)
    }
}

/// The mitigations with one identifier.
pub open spec fn has_id(mitigation_id: u128) -> spec_fn(MitigationView) -> bool {
    |m: MitigationView| m.mitigation_id == mitigation_id
}

/// The mitigations that cannot be stored beside `row` as it is.
pub open spec fn collides_with(row: MitigationView) -> spec_fn(MitigationView) -> bool {
    |m: MitigationView| scopes_collide(m, row)
}

/// The mitigations that hold one scope at one POP.
pub open spec fn active_in_scope(scope_hash: Seq<char>, pop: Seq<char>) -> spec_fn(
    MitigationView,
) -> bool {
    |m: MitigationView| m.scope_hash == scope_hash && m.pop == pop && holds_scope(m.status)
}

/// The mitigations that hold their scope and protect one victim.
pub open spec fn active_for_victim(victim_ip: Seq<char>) -> spec_fn(MitigationView) -> bool {
    |m: MitigationView| m.victim_ip == victim_ip && holds_scope(m.status)
}

/// The mitigations that hold their scope and belong to one customer.
pub open spec fn active_for_customer(customer_id: Seq<char>) -> spec_fn(MitigationView) -> bool {
    |m: MitigationView| m.customer_id == Some(customer_id) && holds_scope(m.status)
}

/// The mitigations that hold their scope at one POP.
pub open spec fn active_at_pop(pop: Seq<char>) -> spec_fn(MitigationView) -> bool {
    |m: MitigationView| m.pop == pop && holds_scope(m.status)
}

/// The mitigations that hold their scope.
pub open spec fn active() -> spec_fn(MitigationView) -> bool {
    |m: MitigationView| holds_scope(m.status)
}

/// The announced mitigations whose time ran out before `now`.
pub open spec fn expired_at(now: i64) -> spec_fn(MitigationView) -> bool {
    |m: MitigationView| is_announced(m.status) && m.expires_at < now
}

/// The mitigations of one POP that were created after the instant `since`.
pub open spec fn created_since(pop: Seq<char>, since: i64) -> spec_fn(MitigationView) -> bool {
    |m: MitigationView| m.pop == pop && m.created_at > since
}

/// Whether a listing with the given filters shows a mitigation: its status
/// is among `statuses`, if those are given, and it belongs to `customer`, if
/// one is given.
pub open spec fn is_listed(
    statuses: Option<Seq<MitigationStatus>>,
    customer: Option<Seq<char>>,
    m: MitigationView,
) -> bool {
    &&& match statuses {
        Some(set) => set.contains(m.status),
        None => true,
    }
    &&& match customer {
        Some(c) => m.customer_id == Some(c),
        None => true,
    }
}

/// The keys by which mitigations are listed: those that the filters show,
/// by the instant they were created.
pub open spec fn mitigation_keys(
    rows: Seq<MitigationView>,
    statuses: Option<Seq<MitigationStatus>>,
    customer: Option<Seq<char>>,
) -> Seq<RowKey> {
    Seq::new(
        rows.len(),
        |i: int|
            RowKey {
                selected: is_listed(statuses, customer, rows[i]),
                at: rows[i].created_at,
                id: rows[i].mitigation_id,
            },
    )
}

/// A stored mitigation after an update with `m`: scope, status, match,
/// action, the instants of update, expiry and withdrawal, the latest event
/// and the reasons are taken from `m`; everything else stays.
pub open spec fn updated(stored: MitigationView, m: MitigationView) -> MitigationView {
    MitigationView {
        scope_hash: m.scope_hash,
        status: m.status,
        updated_at: m.updated_at,
        expires_at: m.expires_at,
        withdrawn_at: m.withdrawn_at,
        last_event_id: m.last_event_id,
        match_criteria: m.match_criteria,
        action_type: m.action_type,
        action_params: m.action_params,
        reason: m.reason,
        rejection_reason: m.rejection_reason,
        ..stored
    }
}

/// Whether `row`, put at position `at`, would collide with a mitigation
/// stored elsewhere.
pub open spec fn collides_elsewhere(rows: Seq<MitigationView>, at: int, row: MitigationView) -> bool {
    exists|j: int| 0 <= j < rows.len() && j != at && scopes_collide(#[trigger] rows[j], row)
}

/// The view of an optional mitigation.
pub open spec fn opt_mitigation_view(row: Option<Mitigation>) -> Option<MitigationView> {
    match row {
        Some(m) => Some(m@),
        None => None,
    }
}

/// The view of an optional list of statuses.
pub open spec fn opt_statuses(statuses: Option<&[MitigationStatus]>) -> Option<
    Seq<MitigationStatus>,
> {
    match statuses {
        Some(set) => Some(set@),
        None => None,
    }
}

/// The view of an optional borrowed text.
pub open spec fn opt_str(text: Option<&str>) -> Option<Seq<char>> {
    match text {
        Some(t) => Some(t@),
        None => None,
    }
}

/// A question asked of the mitigation table.
enum Probe<'a> {
    Id(u128),
    Colliding(&'a Mitigation),
    Scope(&'a str, &'a str),
    Victim(&'a str),
    Customer(&'a str),
    Pop(&'a str),
    Active,
    Expired(i64),
    CreatedSince(&'a str, i64),
}

impl<'a> Probe<'a> {
    /// The mitigations that the question asks for.
    spec fn pred(self) -> spec_fn(MitigationView) -> bool {
        match self {
            Probe::Id(id) => has_id(id),
            Probe::Colliding(m) => collides_with(m@),
            Probe::Scope(scope_hash, pop) => active_in_scope(scope_hash@, pop@),
            Probe::Victim(ip) => active_for_victim(ip@),
            Probe::Customer(c) => active_for_customer(c@),
            Probe::Pop(pop) => active_at_pop(pop@),
            Probe::Active => active(),
            Probe::Expired(now) => expired_at(now),
            Probe::CreatedSince(pop, since) => created_since(pop@, since),
        }
    }

    /// Tells whether a mitigation is one that the question asks for.
    fn asks_for(&self, m: &Mitigation) -> (yes: bool)
        ensures
            yes == (self.pred())(m@),
    {
        match self {
            Probe::Id(id) => m.mitigation_id == *id,
            Probe::Colliding(other) => m.status.holds_scope() && other.status.holds_scope()
                && str_eq(m.scope_hash.as_str(), other.scope_hash.as_str()) && str_eq(
                m.pop.as_str(),
                other.pop.as_str(),
            ),
            Probe::Scope(scope_hash, pop) => str_eq(m.scope_hash.as_str(), scope_hash) && str_eq(
                m.pop.as_str(),
                pop,
            ) && m.status.holds_scope(),
            Probe::Victim(ip) => str_eq(m.victim_ip.as_str(), ip) && m.status.holds_scope(),
            Probe::Customer(c) => opt_text_is(&m.customer_id, c) && m.status.holds_scope(),
            Probe::Pop(pop) => str_eq(m.pop.as_str(), pop) && m.status.holds_scope(),
            Probe::Active => m.status.holds_scope(),
            Probe::Expired(now) => m.status.is_announced() && m.expires_at < *now,
            Probe::CreatedSince(pop, since) => str_eq(m.pop.as_str(), pop) && m.created_at > *since,
        }
    }
}

/// Tells whether a status is among the given ones.
fn status_among(statuses: &[MitigationStatus], status: MitigationStatus) -> (yes: bool)
    ensures
        yes == statuses@.contains(status),
{
    let mut i: usize = 0;
    while i < statuses.len()
        invariant
            i <= statuses.len(),
            forall|k: int| 0 <= k < i ==> statuses@[k] != status,
        decreases statuses.len() - i,
    {
        if statuses[i] == status {
            return true;
        }
        i = i + 1;
    }
    false
}

/// Builds the stored row that an update with `m` leaves.
fn apply_update(stored: &Mitigation, m: &Mitigation) -> (row: Mitigation)
    ensures
        row@ == updated(stored@, m@),
{
    Mitigation {
        mitigation_id: stored.mitigation_id,
        scope_hash: m.scope_hash.clone(),
        pop: stored.pop.clone(),
        customer_id: clone_opt_text(&stored.customer_id),
        service_id: clone_opt_text(&stored.service_id),
        victim_ip: stored.victim_ip.clone(),
        vector: stored.vector,
        match_criteria: m.match_criteria.clone(),
        action_type: m.action_type,
        action_params: m.action_params,
        status: m.status,
        created_at: stored.created_at,
        updated_at: m.updated_at,
        expires_at: m.expires_at,
        withdrawn_at: m.withdrawn_at,
        triggering_event_id: stored.triggering_event_id,
        last_event_id: m.last_event_id,
        escalated_from_id: stored.escalated_from_id,
        reason: m.reason.clone(),
        rejection_reason: clone_opt_text(&m.rejection_reason),
    }
}

impl Repository {
    /// The position of the first mitigation that a question asks for; the
    /// length of the table if there is none.
    fn find_position(&self, probe: &Probe) -> (at: usize)
        ensures
            at == position(self@.mitigations, probe.pred()),
            at <= self@.mitigations.len(),
            at == self.mitigations.len() <==> !any(self@.mitigations, probe.pred()),
            at < self.mitigations.len() ==> (probe.pred())(self@.mitigations[at as int]),
    {
        let ghost pred = probe.pred();
        let mut i: usize = 0;
        while i < self.mitigations.len()
            invariant
                i <= self.mitigations.len(),
                pred == probe.pred(),
                forall|k: int| 0 <= k < i ==> !pred(#[trigger] self@.mitigations[k]),
            decreases self.mitigations.len() - i,
        {
            if probe.asks_for(&self.mitigations[i]) {
                proof {
                    assert(pred(self@.mitigations[i as int]));
                    lemma_first_where_is(self@.mitigations, pred, 0, i as int);
                }
                return i;
            }
            i = i + 1;
        }
        proof {
            lemma_first_where_is(self@.mitigations, pred, 0, i as int);
        }
        i
    }

    /// The mitigations that a question asks for, in the order in which they
    /// were stored.
    fn select(&self, probe: &Probe) -> (rows: Vec<Mitigation>)
        ensures
            mitigation_views(rows@) == self@.mitigations.filter(probe.pred()),
    {
        let ghost pred = probe.pred();
        let ghost all = self@.mitigations;
        let mut rows: Vec<Mitigation> = Vec::new();
        let mut i: usize = 0;
        assert(all.take(0).filter(pred) =~= Seq::empty()) by {
            reveal(Seq::filter);
        }
        while i < self.mitigations.len()
            invariant
                i <= self.mitigations.len(),
                pred == probe.pred(),
                all == self@.mitigations,
                mitigation_views(rows@) =~= all.take(i as int).filter(pred),
            decreases self.mitigations.len() - i,
        {
            proof {
                lemma_filter_step(all, pred, i as int);
            }
            if probe.asks_for(&self.mitigations[i]) {
                let ghost earlier = mitigation_views(rows@);
                rows.push(self.mitigations[i].clone());
                assert(mitigation_views(rows@) =~= earlier.push(all[i as int]));
            }
            i = i + 1;
        }
        assert(all.take(i as int) =~= all);
        rows
    }

    /// How many mitigations a question asks for.
    fn count(&self, probe: &Probe) -> (n: usize)
        ensures
            n == self@.mitigations.filter(probe.pred()).len(),
    {
        let ghost pred = probe.pred();
        let ghost all = self@.mitigations;
        let mut n: usize = 0;
        let mut i: usize = 0;
        assert(all.take(0).filter(pred) =~= Seq::empty()) by {
            reveal(Seq::filter);
        }
        while i < self.mitigations.len()
            invariant
                i <= self.mitigations.len(),
                pred == probe.pred(),
                all == self@.mitigations,
                n == all.take(i as int).filter(pred).len(),
                n <= i,
            decreases self.mitigations.len() - i,
        {
            proof {
                lemma_filter_step(all, pred, i as int);
            }
            if probe.asks_for(&self.mitigations[i]) {
                n = n + 1;
            }
            i = i + 1;
        }
        assert(all.take(i as int) =~= all);
        n
    }

    /// Stores an audit line as the row that stands for it. A line that
    /// shares its identifier with a stored one is refused, and nothing
    /// changes.
    pub fn insert_audit(&mut self, entry: &AuditEntry) -> (r: Result<(), StoreError>)
        ensures
            final(self)@.wf(),
            any(old(self)@.audit, has_audit_id(entry.audit_id)) ==> r == Err::<(), StoreError>(
                StoreError::DuplicateKey,
            ) && final(self)@ == old(self)@,
            !any(old(self)@.audit, has_audit_id(entry.audit_id)) ==> r == Ok::<(), StoreError>(())
                && final(self)@ == (RepositoryView {
                audit: old(self)@.audit.push(row_of_entry(entry@)),
                ..old(self)@
            }),
    {
        proof {
            use_type_invariant(&*self);
        }
        let ghost before = self@;
        let mut i: usize = 0;
        while i < self.audit.len()
            invariant
                i <= self.audit.len(),
                self@ == before,
                before.wf(),
                forall|k: int| 0 <= k < i ==> (#[trigger] before.audit[k]).audit_id != entry.audit_id,
            decreases self.audit.len() - i,
        {
            if self.audit[i].audit_id == entry.audit_id {
                assert(has_audit_id(entry.audit_id)(before.audit[i as int]));
                return Err(StoreError::DuplicateKey);
            }
            i = i + 1;
        }
        let mut audit: Vec<AuditRow> = Vec::new();
        core::mem::swap(&mut audit, &mut self.audit);
        audit.push(entry.to_row());
        proof {
            let after = audit_row_views(audit@);
            assert(after =~= before.audit.push(row_of_entry(entry@)));
            assert forall|a: int, b: int|
                0 <= a < after.len() && 0 <= b < after.len() && a != b implies (
            #[trigger] after[a]).audit_id != (#[trigger] after[b]).audit_id by {
                if a < before.audit.len() && b < before.audit.len() {
                    assert(before.audit[a].audit_id != before.audit[b].audit_id);
                } else if a < before.audit.len() {
                    assert(before.audit[a].audit_id != entry.audit_id);
                } else {
                    assert(before.audit[b].audit_id != entry.audit_id);
                }
            }
        }
        self.audit = audit;
        assert(self@.audit == before.audit.push(row_of_entry(entry@)));
        Ok(())
    }

    /// The audit lines, newest first by their timestamp; `limit` of them
    /// after skipping `offset`. Each comes back as the entry that its row
    /// stands for.
    pub fn list_audit(&self, limit: u32, offset: u32) -> (r: Result<Vec<AuditEntry>, StoreError>)
        ensures
            r is Ok,
            audit_entry_views(r->Ok_0@) == entries_of_rows(
                page(rows_at(self@.audit, listing(audit_keys(self@.audit))), limit, offset),
            ),
    {
        let mut keys: Vec<RowKey> = Vec::new();
        let mut i: usize = 0;
        while i < self.audit.len()
            invariant
                i <= self.audit.len(),
                keys@ == audit_keys(self@.audit).subrange(0, i as int),
            decreases self.audit.len() - i,
        {
            let row = &self.audit[i];
            keys.push(RowKey { selected: true, at: row.timestamp, id: row.audit_id });
            assert(keys@ =~= audit_keys(self@.audit).subrange(0, i + 1));
            i = i + 1;
        }
        assert(keys@ =~= audit_keys(self@.audit));
        let order = listing_order(&keys);
        let ghost listed = rows_at(self@.audit, positions(order@));
        let (start, end) = page_bounds(order.len(), limit, offset);
        let mut out: Vec<AuditEntry> = Vec::new();
        let mut k: usize = start;
        assert(audit_entry_views(out@) =~= entries_of_rows(listed.subrange(start as int, k as int)));
        while k < end
            invariant
                start <= k <= end <= order.len(),
                listed == rows_at(self@.audit, positions(order@)),
                crate::listing::is_listing(audit_keys(self@.audit), positions(order@)),
                audit_entry_views(out@) == entries_of_rows(listed.subrange(start as int, k as int)),
            decreases end - k,
        {
            assert(0 <= positions(order@)[k as int] < self@.audit.len());
            let ghost earlier = audit_entry_views(out@);
            let entry = AuditEntry::from_row(self.audit[order[k]].clone());
            out.push(entry);
            proof {
                let at = order@[k as int] as int;
                assert(positions(order@)[k as int] == at);
                assert(listed[k as int] == self@.audit[at]);
                assert(self@.audit[at] == self.audit@[at]@);
                assert(audit_entry_views(out@) =~= earlier.push(entry_of_row(listed[k as int])));
                assert(listed.subrange(start as int, k + 1) =~= listed.subrange(
                    start as int,
                    k as int,
                ).push(listed[k as int]));
                assert(audit_entry_views(out@) =~= entries_of_rows(
                    listed.subrange(start as int, k + 1),
                ));
            }
            k = k + 1;
        }
        Ok(out)
    }

    /// Stores a mitigation. One that shares its identifier with a stored
    /// one is refused as a duplicate. One that holds its scope while a
    /// stored one holds the same scope at the same POP is refused as
    /// conflicting. Nothing changes when a mitigation is refused.
    pub fn insert_mitigation(&mut self, m: &Mitigation) -> (r: Result<(), StoreError>)
        ensures
            final(self)@.wf(),
            any(old(self)@.mitigations, has_id(m.mitigation_id)) ==> r == Err::<(), StoreError>(
                StoreError::DuplicateKey,
            ) && final(self)@ == old(self)@,
            !any(old(self)@.mitigations, has_id(m.mitigation_id)) && any(
                old(self)@.mitigations,
                collides_with(m@),
            ) ==> r == Err::<(), StoreError>(StoreError::ConflictingMitigation) && final(self)@
                == old(self)@,
            !any(old(self)@.mitigations, has_id(m.mitigation_id)) && !any(
                old(self)@.mitigations,
                collides_with(m@),
            ) ==> r == Ok::<(), StoreError>(()) && final(self)@ == (RepositoryView {
                mitigations: old(self)@.mitigations.push(m@),
                ..old(self)@
            }),
    {
        proof {
            use_type_invariant(&*self);
        }
        let ghost before = self@;
        if self.find_position(&Probe::Id(m.mitigation_id)) < self.mitigations.len() {
            return Err(StoreError::DuplicateKey);
        }
        if self.find_position(&Probe::Colliding(m)) < self.mitigations.len() {
            return Err(StoreError::ConflictingMitigation);
        }
        let mut rows: Vec<Mitigation> = Vec::new();
        core::mem::swap(&mut rows, &mut self.mitigations);
        rows.push(m.clone());
        proof {
            let after = mitigation_views(rows@);
            assert(after =~= before.mitigations.push(m@));
            assert forall|a: int, b: int|
                0 <= a < after.len() && 0 <= b < after.len() && a != b implies {
                &&& (#[trigger] after[a]).mitigation_id != (#[trigger] after[b]).mitigation_id
                &&& !scopes_collide(after[a], after[b])
            } by {
                if a < before.mitigations.len() && b < before.mitigations.len() {
                    assert(before.mitigations[a].mitigation_id
                        != before.mitigations[b].mitigation_id);
                } else if a < before.mitigations.len() {
                    assert(!has_id(m.mitigation_id)(before.mitigations[a]));
                    assert(!collides_with(m@)(before.mitigations[a]));
                } else {
                    assert(!has_id(m.mitigation_id)(before.mitigations[b]));
                    assert(!collides_with(m@)(before.mitigations[b]));
                }
            }
        }
        self.mitigations = rows;
        assert(self@.mitigations == before.mitigations.push(m@));
        Ok(())
    }

    /// Updates the stored mitigation that has the identifier of `m`, as
    /// [`updated`] says. Where none has it, nothing changes. Where the
    /// updated row would hold the scope that another stored mitigation holds
    /// at the same POP, the update is refused and nothing changes.
    pub fn update_mitigation(&mut self, m: &Mitigation) -> (r: Result<(), StoreError>)
        ensures
            final(self)@.wf(),
            ({
                let rows = old(self)@.mitigations;
                let at = position(rows, has_id(m.mitigation_id));
                if at >= rows.len() {
                    r == Ok::<(), StoreError>(()) && final(self)@ == old(self)@
                } else if collides_elsewhere(rows, at, updated(rows[at], m@)) {
                    r == Err::<(), StoreError>(StoreError::ConflictingMitigation) && final(self)@
                        == old(self)@
                } else {
                    r == Ok::<(), StoreError>(()) && final(self)@ == (RepositoryView {
                        mitigations: rows.update(at, updated(rows[at], m@)),
                        ..old(self)@
                    })
                }
            }),
    {
        proof {
            use_type_invariant(&*self);
        }
        let ghost before = self@;
        let at = self.find_position(&Probe::Id(m.mitigation_id));
        if at >= self.mitigations.len() {
            return Ok(());
        }
        let row = apply_update(&self.mitigations[at], m);
        let ghost new_row = row@;
        let mut j: usize = 0;
        while j < self.mitigations.len()
            invariant
                j <= self.mitigations.len(),
                at < self.mitigations.len(),
                self@ == before,
                before.wf(),
                row@ == new_row,
                at == position(before.mitigations, has_id(m.mitigation_id)),
                new_row == updated(before.mitigations[at as int], m@),
                forall|k: int|
                    0 <= k < j && k != at ==> !scopes_collide(
                        #[trigger] before.mitigations[k],
                        new_row,
                    ),
            decreases self.mitigations.len() - j,
        {
            if j != at && Probe::Colliding(&row).asks_for(&self.mitigations[j]) {
                assert(scopes_collide(before.mitigations[j as int], new_row));
                return Err(StoreError::ConflictingMitigation);
            }
            j = j + 1;
        }
        let mut rows: Vec<Mitigation> = Vec::new();
        core::mem::swap(&mut rows, &mut self.mitigations);
        rows[at] = row;
        proof {
            let after = mitigation_views(rows@);
            assert(after =~= before.mitigations.update(at as int, new_row));
            assert forall|a: int, b: int|
                0 <= a < after.len() && 0 <= b < after.len() && a != b implies {
                &&& (#[trigger] after[a]).mitigation_id != (#[trigger] after[b]).mitigation_id
                &&& !scopes_collide(after[a], after[b])
            } by {
                assert(before.mitigations[a].mitigation_id != before.mitigations[b].mitigation_id);
                assert(!scopes_collide(before.mitigations[a], before.mitigations[b]));
                if a == at {
                    assert(!scopes_collide(before.mitigations[b], new_row));
                } else if b == at {
                    assert(!scopes_collide(before.mitigations[a], new_row));
                }
            }
        }
        self.mitigations = rows;
        assert(self@.mitigations == before.mitigations.update(at as int, new_row));
        Ok(())
    }

    /// The mitigation with the given identifier, if it is stored.
    pub fn get_mitigation(&self, id: u128) -> (r: Result<Option<Mitigation>, StoreError>)
        ensures
            self@.wf(),
            r is Ok,
            opt_mitigation_view(r->Ok_0) == lookup(self@.mitigations, has_id(id)),
    {
        proof {
            use_type_invariant(self);
        }
        let at = self.find_position(&Probe::Id(id));
        if at < self.mitigations.len() {
            Ok(Some(self.mitigations[at].clone()))
        } else {
            Ok(None)
        }
    }

    /// The mitigation that holds the given scope at the given POP, if there
    /// is one.
    pub fn find_active_by_scope(&self, scope_hash: &str, pop: &str) -> (r: Result<
        Option<Mitigation>,
        StoreError,
    >)
        ensures
            r is Ok,
            opt_mitigation_view(r->Ok_0) == lookup(
                self@.mitigations,
                active_in_scope(scope_hash@, pop@),
            ),
    {
        let at = self.find_position(&Probe::Scope(scope_hash, pop));
        if at < self.mitigations.len() {
            Ok(Some(self.mitigations[at].clone()))
        } else {
            Ok(None)
        }
    }

    /// The mitigations that hold their scope and protect the given victim, in
    /// the order in which they were stored.
    pub fn find_active_by_victim(&self, victim_ip: &str) -> (r: Result<Vec<Mitigation>, StoreError>)
        ensures
            r is Ok,
            mitigation_views(r->Ok_0@) == self@.mitigations.filter(active_for_victim(victim_ip@)),
    {
        Ok(self.select(&Probe::Victim(victim_ip)))
    }

    /// The mitigations that the filters show, newest first by the instant
    /// they were created; `limit` of them after skipping `offset`.
    pub fn list_mitigations(
        &self,
        status_filter: Option<&[MitigationStatus]>,
        customer_id: Option<&str>,
        limit: u32,
        offset: u32,
    ) -> (r: Result<Vec<Mitigation>, StoreError>)
        ensures
            r is Ok,
            mitigation_views(r->Ok_0@) == page(
                rows_at(
                    self@.mitigations,
                    listing(
                        mitigation_keys(
                            self@.mitigations,
                            opt_statuses(status_filter),
                            opt_str(customer_id),
                        ),
                    ),
                ),
                limit,
                offset,
            ),
    {
        let ghost all_keys = mitigation_keys(
            self@.mitigations,
            opt_statuses(status_filter),
            opt_str(customer_id),
        );
        let mut keys: Vec<RowKey> = Vec::new();
        let mut i: usize = 0;
        while i < self.mitigations.len()
            invariant
                i <= self.mitigations.len(),
                all_keys == mitigation_keys(
                    self@.mitigations,
                    opt_statuses(status_filter),
                    opt_str(customer_id),
                ),
                keys@ == all_keys.subrange(0, i as int),
            decreases self.mitigations.len() - i,
        {
            let m = &self.mitigations[i];
            let status_ok = match status_filter {
                Some(set) => status_among(set, m.status),
                None => true,
            };
            let customer_ok = match customer_id {
                Some(c) => opt_text_is(&m.customer_id, c),
                None => true,
            };
            keys.push(
                RowKey {
                    selected: status_ok && customer_ok,
                    at: m.created_at,
                    id: m.mitigation_id,
                },
            );
            assert(keys@ =~= all_keys.subrange(0, i + 1));
            i = i + 1;
        }
        assert(keys@ =~= all_keys);
        let order = listing_order(&keys);
        let ghost listed = rows_at(self@.mitigations, positions(order@));
        let (start, end) = page_bounds(order.len(), limit, offset);
        let mut out: Vec<Mitigation> = Vec::new();
        let mut k: usize = start;
        while k < end
            invariant
                start <= k <= end <= order.len(),
                all_keys.len() == self@.mitigations.len(),
                listed == rows_at(self@.mitigations, positions(order@)),
                crate::listing::is_listing(all_keys, positions(order@)),
                mitigation_views(out@) == listed.subrange(start as int, k as int),
            decreases end - k,
        {
            assert(0 <= positions(order@)[k as int] < self@.mitigations.len());
            let ghost earlier = mitigation_views(out@);
            out.push(self.mitigations[order[k]].clone());
            proof {
                let at = order@[k as int] as int;
                assert(positions(order@)[k as int] == at);
                assert(listed[k as int] == self@.mitigations[at]);
                assert(self@.mitigations[at] == self.mitigations@[at]@);
                assert(mitigation_views(out@) =~= earlier.push(self.mitigations@[at]@));
                assert(mitigation_views(out@) =~= listed.subrange(start as int, k + 1));
            }
            k = k + 1;
        }
        Ok(out)
    }

    /// The mitigations of every POP that the filters show, newest first by
    /// the instant they were created; `limit` of them after skipping
    /// `offset`.
    pub fn list_mitigations_all_pops(
        &self,
        status_filter: Option<&[MitigationStatus]>,
        customer_id: Option<&str>,
        limit: u32,
        offset: u32,
    ) -> (r: Result<Vec<Mitigation>, StoreError>)
        ensures
            r is Ok,
            mitigation_views(r->Ok_0@) == page(
                rows_at(
                    self@.mitigations,
                    listing(
                        mitigation_keys(
                            self@.mitigations,
                            opt_statuses(status_filter),
                            opt_str(customer_id),
                        ),
                    ),
                ),
                limit,
                offset,
            ),
    {
        self.list_mitigations(status_filter, customer_id, limit, offset)
    }

    /// How many mitigations of the given customer hold their scope, as a
    /// 32-bit number.
    pub fn count_active_by_customer(&self, customer_id: &str) -> (r: Result<u32, StoreError>)
        ensures
            r is Ok,
            r->Ok_0 == self@.mitigations.filter(active_for_customer(customer_id@)).len() as u32,
    {
        let n = self.count(&Probe::Customer(customer_id));
        Ok(#[verifier::truncate] (n as u32))
    }

    /// How many mitigations hold their scope at the given POP, as a 32-bit
    /// number.
    pub fn count_active_by_pop(&self, pop: &str) -> (r: Result<u32, StoreError>)
        ensures
            r is Ok,
            r->Ok_0 == self@.mitigations.filter(active_at_pop(pop@)).len() as u32,
    {
        let n = self.count(&Probe::Pop(pop));
        Ok(#[verifier::truncate] (n as u32))
    }

    /// How many mitigations hold their scope, as a 32-bit number.
    pub fn count_active_global(&self) -> (r: Result<u32, StoreError>)
        ensures
            r is Ok,
            r->Ok_0 == self@.mitigations.filter(active()).len() as u32,
    {
        let n = self.count(&Probe::Active);
        Ok(#[verifier::truncate] (n as u32))
    }

    /// How many mitigations of the given POP were created after the instant
    /// `since`, as a 32-bit number.
    pub fn count_created_since(&self, pop: &str, since: i64) -> (r: Result<u32, StoreError>)
        ensures
            r is Ok,
            r->Ok_0 == self@.mitigations.filter(created_since(pop@, since)).len() as u32,
    {
        let n = self.count(&Probe::CreatedSince(pop, since));
        Ok(#[verifier::truncate] (n as u32))
    }

    /// The announced mitigations whose time ran out before `now`, in the
    /// order in which they were stored.
    pub fn find_expired_mitigations_at(&self, now: i64) -> (r: Result<Vec<Mitigation>, StoreError>)
        ensures
            r is Ok,
            mitigation_views(r->Ok_0@) == self@.mitigations.filter(expired_at(now)),
    {
        Ok(self.select(&Probe::Expired(now)))
    }

    /// The announced mitigations whose time has run out, by the clock.
    ///
    /// Reads the clock once and answers as [`Self::find_expired_mitigations_at`]
    /// does for that instant.
    pub fn find_expired_mitigations(&self) -> (r: Result<Vec<Mitigation>, StoreError>)
        ensures
            r is Ok,
            exists|now: i64|
                mitigation_views(r->Ok_0@) == self@.mitigations.filter(#[trigger] expired_at(now)),
    {
        let now = now_micros();
        self.find_expired_mitigations_at(now)
    }
}

/// The safelist entries with one prefix.
pub open spec fn has_prefix(prefix: Seq<char>) -> spec_fn(SafelistEntryView) -> bool {
    |e: SafelistEntryView| e.prefix == prefix
}

/// The safelist after a prefix is added at the instant `now`.
///
/// A new prefix is appended without an expiry. A prefix that is listed
/// already is replaced: a repository that follows SQLite drops the old entry
/// and appends the new one, so an expiry is lost; one that follows
/// PostgreSQL rewrites the entry in place and keeps its expiry.
pub open spec fn upserted(
    pool: DbPool,
    list: Seq<SafelistEntryView>,
    prefix: Seq<char>,
    added_by: Seq<char>,
    reason: Option<Seq<char>>,
    now: i64,
) -> Seq<SafelistEntryView> {
    let at = position(list, has_prefix(prefix));
    let fresh = SafelistEntryView { prefix, added_at: now, added_by, reason, expires_at: None };
    if at >= list.len() {
        list.push(fresh)
    } else if pool == DbPool::Sqlite {
        list.remove(at).push(fresh)
    } else {
        list.update(at, SafelistEntryView { expires_at: list[at].expires_at, ..fresh })
    }
}

/// Copies an optional borrowed text.
fn own_opt_str(text: Option<&str>) -> (copy: Option<String>)
    ensures
        opt_text(copy) == opt_str(text),
{
    match text {
        Some(t) => Some(t.to_owned()),
        None => None,
    }
}

impl Repository {
    /// The position of the safelist entry with the given prefix; the length
    /// of the safelist if there is none.
    fn find_prefix(&self, prefix: &str) -> (at: usize)
        ensures
            at == position(self@.safelist, has_prefix(prefix@)),
            at <= self.safelist.len(),
            at < self.safelist.len() ==> self@.safelist[at as int].prefix == prefix@,
            forall|k: int| 0 <= k < at ==> (#[trigger] self@.safelist[k]).prefix != prefix@,
    {
        let ghost pred = has_prefix(prefix@);
        let mut i: usize = 0;
        while i < self.safelist.len()
            invariant
                i <= self.safelist.len(),
                pred == has_prefix(prefix@),
                forall|k: int| 0 <= k < i ==> !pred(#[trigger] self@.safelist[k]),
            decreases self.safelist.len() - i,
        {
            if str_eq(self.safelist[i].prefix.as_str(), prefix) {
                proof {
                    assert(pred(self@.safelist[i as int]));
                    lemma_first_where_is(self@.safelist, pred, 0, i as int);
                    assert forall|k: int| 0 <= k < i implies (
                    #[trigger] self@.safelist[k]).prefix != prefix@ by {
                        assert(!pred(self@.safelist[k]));
                    }
                }
                return i;
            }
            i = i + 1;
        }
        proof {
            lemma_first_where_is(self@.safelist, pred, 0, i as int);
            assert forall|k: int| 0 <= k < i implies (#[trigger] self@.safelist[k]).prefix
                != prefix@ by {
                assert(!pred(self@.safelist[k]));
            }
        }
        i
    }

    /// Adds a prefix to the safelist at the instant `now`, or replaces the
    /// entry of a prefix that is listed already, as [`upserted`] says.
    pub fn insert_safelist_at(
        &mut self,
        prefix: &str,
        added_by: &str,
        reason: Option<&str>,
        now: i64,
    ) -> (r: Result<(), StoreError>)
        ensures
            final(self)@.wf(),
            r == Ok::<(), StoreError>(()),
            final(self)@ == (RepositoryView {
                safelist: upserted(
                    old(self)@.pool,
                    old(self)@.safelist,
                    prefix@,
                    added_by@,
                    opt_str(reason),
                    now,
                ),
                ..old(self)@
            }),
    {
        proof {
            use_type_invariant(&*self);
        }
        let ghost before = self@;
        let at = self.find_prefix(prefix);
        let found = at < self.safelist.len();
        let kept_expiry = if found {
            match self.pool {
                DbPool::Sqlite => None,
                DbPool::Postgres => self.safelist[at].expires_at,
            }
        } else {
            None
        };
        let entry = SafelistEntry {
            prefix: prefix.to_owned(),
            added_at: now,
            added_by: added_by.to_owned(),
            reason: own_opt_str(reason),
            expires_at: kept_expiry,
        };
        let ghost fresh = entry@;
        let pool = self.pool;
        let mut list: Vec<SafelistEntry> = Vec::new();
        core::mem::swap(&mut list, &mut self.safelist);
        assert(entry_views(list@) == before.safelist);
        if !found {
            list.push(entry);
            proof {
                let after = entry_views(list@);
                assert(after =~= before.safelist.push(fresh));
                assert forall|a: int, b: int|
                    0 <= a < after.len() && 0 <= b < after.len() && a != b implies (
                #[trigger] after[a]).prefix != (#[trigger] after[b]).prefix by {
                    if a < before.safelist.len() && b < before.safelist.len() {
                        assert(before.safelist[a].prefix != before.safelist[b].prefix);
                    }
                }
            }
        } else {
            match pool {
                DbPool::Sqlite => {
                    let _ = list.remove(at);
                    list.push(entry);
                    proof {
                        let after = entry_views(list@);
                        let cut = before.safelist.remove(at as int);
                        assert(after =~= cut.push(fresh));
                        assert forall|a: int, b: int|
                            0 <= a < after.len() && 0 <= b < after.len() && a != b implies (
                        #[trigger] after[a]).prefix != (#[trigger] after[b]).prefix by {
                            let sa = if a < at { a } else { a + 1 };
                            let sb = if b < at { b } else { b + 1 };
                            if a < cut.len() && b < cut.len() {
                                assert(cut[a] == before.safelist[sa]);
                                assert(cut[b] == before.safelist[sb]);
                                assert(before.safelist[sa].prefix != before.safelist[sb].prefix);
                            } else if a < cut.len() {
                                assert(cut[a] == before.safelist[sa]);
                                assert(before.safelist[sa].prefix != before.safelist[at as int].prefix);
                            } else {
                                assert(cut[b] == before.safelist[sb]);
                                assert(before.safelist[sb].prefix != before.safelist[at as int].prefix);
                            }
                        }
                    }
                },
                DbPool::Postgres => {
                    list[at] = entry;
                    proof {
                        let after = entry_views(list@);
                        assert(after =~= before.safelist.update(at as int, fresh));
                        assert forall|a: int, b: int|
                            0 <= a < after.len() && 0 <= b < after.len() && a != b implies (
                        #[trigger] after[a]).prefix != (#[trigger] after[b]).prefix by {
                            assert(before.safelist[a].prefix != before.safelist[b].prefix);
                        }
                    }
                },
            }
        }
        self.safelist = list;
        assert(self@.safelist == upserted(
            before.pool,
            before.safelist,
            prefix@,
            added_by@,
            opt_str(reason),
            now,
        ));
        Ok(())
    }

    /// Adds a prefix to the safelist, stamped with the clock.
    ///
    /// Reads the clock once and does as [`Self::insert_safelist_at`] does at
    /// that instant.
    pub fn insert_safelist(&mut self, prefix: &str, added_by: &str, reason: Option<&str>) -> (r:
        Result<(), StoreError>)
        ensures
            final(self)@.wf(),
            r == Ok::<(), StoreError>(()),
            exists|now: i64|
                final(self)@ == (RepositoryView {
                    safelist: #[trigger] upserted(
                        old(self)@.pool,
                        old(self)@.safelist,
                        prefix@,
                        added_by@,
                        opt_str(reason),
                        now,
                    ),
                    ..old(self)@
                }),
    {
        let now = now_micros();
        self.insert_safelist_at(prefix, added_by, reason, now)
    }

    /// Takes a prefix off the safelist, and tells whether it was listed.
    pub fn remove_safelist(&mut self, prefix: &str) -> (r: Result<bool, StoreError>)
        ensures
            final(self)@.wf(),
            ({
                let list = old(self)@.safelist;
                let at = position(list, has_prefix(prefix@));
                if at < list.len() {
                    r == Ok::<bool, StoreError>(true) && final(self)@ == (RepositoryView {
                        safelist: list.remove(at),
                        ..old(self)@
                    })
                } else {
                    r == Ok::<bool, StoreError>(false) && final(self)@ == old(self)@
                }
            }),
    {
        proof {
            use_type_invariant(&*self);
        }
        let ghost before = self@;
        let at = self.find_prefix(prefix);
        if at >= self.safelist.len() {
            return Ok(false);
        }
        let mut list: Vec<SafelistEntry> = Vec::new();
        core::mem::swap(&mut list, &mut self.safelist);
        let _ = list.remove(at);
        proof {
            let after = entry_views(list@);
            assert(after =~= before.safelist.remove(at as int));
            assert forall|a: int, b: int|
                0 <= a < after.len() && 0 <= b < after.len() && a != b implies (
            #[trigger] after[a]).prefix != (#[trigger] after[b]).prefix by {
                let sa = if a < at { a } else { a + 1 };
                let sb = if b < at { b } else { b + 1 };
                assert(after[a] == before.safelist[sa]);
                assert(after[b] == before.safelist[sb]);
                assert(before.safelist[sa].prefix != before.safelist[sb].prefix);
            }
        }
        self.safelist = list;
        assert(self@.safelist == before.safelist.remove(at as int));
        Ok(true)
    }

    /// The safelist, in the order in which its entries were stored.
    pub fn list_safelist(&self) -> (r: Result<Vec<SafelistEntry>, StoreError>)
        ensures
            r is Ok,
            entry_views(r->Ok_0@) == self@.safelist,
    {
        let mut out: Vec<SafelistEntry> = Vec::new();
        let mut i: usize = 0;
        while i < self.safelist.len()
            invariant
                i <= self.safelist.len(),
                entry_views(out@) == self@.safelist.subrange(0, i as int),
            decreases self.safelist.len() - i,
        {
            let ghost earlier = entry_views(out@);
            out.push(self.safelist[i].clone());
            proof {
                assert(self@.safelist[i as int] == self.safelist@[i as int]@);
                assert(entry_views(out@) =~= earlier.push(self.safelist@[i as int]@));
                assert(entry_views(out@) =~= self@.safelist.subrange(0, i + 1));
            }
            i = i + 1;
        }
        assert(self@.safelist.subrange(0, i as int) =~= self@.safelist);
        Ok(out)
    }

    /// Whether the safelist protects what `ip` names at the instant `now`.
    pub fn is_safelisted_at(&self, ip: &str, now: i64) -> (r: Result<bool, StoreError>)
        ensures
            r == Ok::<bool, StoreError>(safelisted(self@.safelist, ip@, now)),
    {
        Ok(safelist_covers(&self.safelist, ip, now))
    }

    /// Whether the safelist protects what `ip` names, by the clock.
    ///
    /// Reads the clock once and answers as [`Self::is_safelisted_at`] does
    /// for that instant.
    pub fn is_safelisted(&self, ip: &str) -> (r: Result<bool, StoreError>)
        ensures
            exists|now: i64|
                r == Ok::<bool, StoreError>(#[trigger] safelisted(self@.safelist, ip@, now)),
    {
        let now = now_micros();
        self.is_safelisted_at(ip, now)
    }
}

impl Repository {
    /// Every POP that has mitigations, in ascending order of the POPs, with
    /// the number of its mitigations whose status is `Active` and the number
    /// of all its mitigations.
    pub fn list_pops(&self) -> (r: Result<Vec<PopInfo>, StoreError>)
        ensures
            r is Ok,
            pop_info_views(r->Ok_0@) == pop_infos(self@.mitigations),
    {
        Ok(pop_infos_of(&self.mitigations))
    }

    /// The statistics over all POPs: the mitigations whose status is
    /// `Active`, all mitigations, all events, and a line for each POP.
    pub fn get_stats(&self) -> (r: Result<GlobalStats, StoreError>)
        ensures
            r is Ok,
            r->Ok_0@ == global_stats(self@.mitigations, self@.events.len()),
    {
        Ok(global_stats_of(&self.mitigations, self.events.len()))
    }
}

/// In a repository, at most one mitigation holds a given scope at a given
/// POP: two rows that both hold the same scope at the same POP are one row.
pub proof fn lemma_one_holder_per_scope(repo: RepositoryView, i: int, j: int)
    requires
        repo.wf(),
        0 <= i < repo.mitigations.len(),
        0 <= j < repo.mitigations.len(),
        scopes_collide(repo.mitigations[i], repo.mitigations[j]),
    ensures
        i == j,
{
}

/// In a repository, the mitigation that holds a scope at a POP is the only
/// row that a search for that scope and POP can find.
pub proof fn lemma_scope_holder_is_unique(
    repo: RepositoryView,
    scope_hash: Seq<char>,
    pop: Seq<char>,
    i: int,
)
    requires
        repo.wf(),
        0 <= i < repo.mitigations.len(),
        active_in_scope(scope_hash, pop)(repo.mitigations[i]),
    ensures
        position(repo.mitigations, active_in_scope(scope_hash, pop)) == i,
        lookup(repo.mitigations, active_in_scope(scope_hash, pop)) == Some(repo.mitigations[i]),
{
    let pred = active_in_scope(scope_hash, pop);
    lemma_first_where(repo.mitigations, pred, 0);
    let at = position(repo.mitigations, pred);
    if at < i {
        assert(pred(repo.mitigations[at]));
        assert(scopes_collide(repo.mitigations[at], repo.mitigations[i]));
    } else if at > i {
        assert(!pred(repo.mitigations[i]));
    }
}

/// In a repository, no two mitigations share an identifier: the row with a
/// given identifier is the only one that a search for it can find.
pub proof fn lemma_mitigation_id_is_unique(repo: RepositoryView, i: int)
    requires
        repo.wf(),
        0 <= i < repo.mitigations.len(),
    ensures
        position(repo.mitigations, has_id(repo.mitigations[i].mitigation_id)) == i,
{
    let pred = has_id(repo.mitigations[i].mitigation_id);
    lemma_first_where(repo.mitigations, pred, 0);
    let at = position(repo.mitigations, pred);
    if at < i {
        assert(pred(repo.mitigations[at]));
    } else if at > i {
        assert(!pred(repo.mitigations[i]));
    }
}

/// An event is stored once: after an event with a detector's identifier is
/// stored, a second event of the same source with the same detector's
/// identifier clashes with it, whatever else it holds, and a search for that
/// identifier finds the first.
pub proof fn lemma_event_stored_once(
    repo: RepositoryView,
    first: AttackEventView,
    second: AttackEventView,
)
    requires
        repo.wf(),
        !any(repo.events, clashes_with(first)),
        first.external_event_id is Some,
        second.source == first.source,
        second.external_event_id == first.external_event_id,
    ensures
        any(repo.events.push(first), clashes_with(second)),
        lookup(
            repo.events.push(first),
            has_external_id(first.source, first.external_event_id->0),
        ) == Some(first),
{
    let after = repo.events.push(first);
    let n = repo.events.len() as int;
    assert(after[n] == first);
    assert(clashes_with(second)(after[n]));
    let pred = has_external_id(first.source, first.external_event_id->0);
    assert forall|k: int| 0 <= k < n implies !pred(#[trigger] after[k]) by {
        assert(after[k] == repo.events[k]);
        if pred(after[k]) {
            assert(clashes_with(first)(repo.events[k]));
        }
    }
    assert(pred(after[n]));
    lemma_first_where_is(after, pred, 0, n);
}

/// A mitigation that was stored is found again under its identifier.
pub proof fn lemma_stored_mitigation_is_found(repo: RepositoryView, m: MitigationView)
    requires
        !any(repo.mitigations, has_id(m.mitigation_id)),
    ensures
        lookup(repo.mitigations.push(m), has_id(m.mitigation_id)) == Some(m),
{
    let after = repo.mitigations.push(m);
    let n = repo.mitigations.len() as int;
    let pred = has_id(m.mitigation_id);
    assert forall|k: int| 0 <= k < n implies !pred(#[trigger] after[k]) by {
        assert(after[k] == repo.mitigations[k]);
    }
    assert(after[n] == m);
    assert(pred(after[n]));
    lemma_first_where_is(after, pred, 0, n);
}

/// An update never adds or removes a row, and never changes who owns a
/// mitigation, which POP decided it, whom it protects, when it was created
/// or what it was created from.
pub proof fn lemma_update_keeps_origin(stored: MitigationView, m: MitigationView)
    ensures
        updated(stored, m).mitigation_id == stored.mitigation_id,
        updated(stored, m).pop == stored.pop,
        updated(stored, m).customer_id == stored.customer_id,
        updated(stored, m).service_id == stored.service_id,
        updated(stored, m).victim_ip == stored.victim_ip,
        updated(stored, m).vector == stored.vector,
        updated(stored, m).created_at == stored.created_at,
        updated(stored, m).triggering_event_id == stored.triggering_event_id,
        updated(stored, m).escalated_from_id == stored.escalated_from_id,
{
}

impl Repository {
    /// Whether an event is stored that cannot be stored beside `event`.
    pub fn has_event_like(&self, event: &AttackEvent) -> (yes: bool)
        ensures
            yes == any(self@.events, clashes_with(event@)),
    {
        let mut i: usize = 0;
        while i < self.events.len()
            invariant
                i <= self.events.len(),
                forall|k: int| 0 <= k < i ==> !events_clash(#[trigger] self@.events[k], event@),
            decreases self.events.len() - i,
        {
            if clash(&self.events[i], event) {
                assert(clashes_with(event@)(self@.events[i as int]));
                return true;
            }
            i = i + 1;
        }
        false
    }

    /// Whether an audit line with the given identifier is stored.
    pub fn has_audit(&self, audit_id: u128) -> (yes: bool)
        ensures
            yes == any(self@.audit, has_audit_id(audit_id)),
    {
        let mut i: usize = 0;
        while i < self.audit.len()
            invariant
                i <= self.audit.len(),
                forall|k: int| 0 <= k < i ==> (#[trigger] self@.audit[k]).audit_id != audit_id,
            decreases self.audit.len() - i,
        {
            if self.audit[i].audit_id == audit_id {
                assert(has_audit_id(audit_id)(self@.audit[i as int]));
                return true;
            }
            i = i + 1;
        }
        false
    }

    /// Every mitigation, in the order in which they were stored.
    pub fn all_mitigations(&self) -> (rows: Vec<Mitigation>)
        ensures
            self@.wf(),
            mitigation_views(rows@) == self@.mitigations,
    {
        proof {
            use_type_invariant(self);
        }
        let mut rows: Vec<Mitigation> = Vec::new();
        let mut i: usize = 0;
        while i < self.mitigations.len()
            invariant
                i <= self.mitigations.len(),
                mitigation_views(rows@) == self@.mitigations.subrange(0, i as int),
            decreases self.mitigations.len() - i,
        {
            let ghost earlier = mitigation_views(rows@);
            rows.push(self.mitigations[i].clone());
            proof {
                assert(self@.mitigations[i as int] == self.mitigations@[i as int]@);
                assert(mitigation_views(rows@) =~= earlier.push(self.mitigations@[i as int]@));
                assert(mitigation_views(rows@) =~= self@.mitigations.subrange(0, i + 1));
            }
            i = i + 1;
        }
        assert(self@.mitigations.subrange(0, i as int) =~= self@.mitigations);
        rows
    }
}

/// The view of an optional event.
pub open spec fn opt_event_view(event: Option<AttackEvent>) -> Option<AttackEventView> {
    match event {
        Some(e) => Some(e@),
        None => None,
    }
}

/// Where the page of a query with `limit` and `offset` begins and ends in a
/// listing of `len` rows.
pub fn page_bounds(len: usize, limit: u32, offset: u32) -> (bounds: (usize, usize))
    ensures
        bounds.0 == if offset <= len {
            offset as int
        } else {
            len as int
        },
        bounds.1 == if offset + limit <= len {
            offset + limit
        } else {
            len as int
        },
        bounds.0 <= bounds.1 <= len,
{
    let start: usize = if (offset as u64) <= (len as u64) {
        offset as usize
    } else {
        len
    };
    let wanted: u64 = offset as u64 + limit as u64;
    let end: usize = if wanted <= (len as u64) {
        wanted as usize
    } else {
        len
    };
    (start, end)
}

} // verus!

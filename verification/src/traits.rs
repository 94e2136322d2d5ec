//! The operations of a store, as the control plane sees them.
//!
//! A store keeps events, mitigations, audit lines and safelist entries. Its
//! view is what it holds; every operation is stated over that view, so that
//! two stores with the same view answer alike. The repository in memory is
//! one such store.

use vstd::prelude::*;

use crate::audit::{row_of_entry, AuditEntry};
use crate::domain::{AttackEvent, Mitigation, MitigationStatus};
use crate::listing::{listing, page};
use crate::repository::{
    active, active_at_pop, active_for_customer, active_for_victim, active_in_scope,
    audit_entry_views, audit_keys, clashes_with, collides_elsewhere, collides_with,
    entries_of_rows, event_keys, event_views, expired_at, has_audit_id, has_external_id, has_id,
    has_prefix, mitigation_keys, mitigation_views, opt_event_view, opt_mitigation_view, opt_statuses,
    opt_str, rows_at, updated, upserted, Repository, RepositoryView, StoreError,
};
use crate::safelist::{entry_views, safelisted, SafelistEntry};
use crate::search::{any, lookup, position};
use crate::stats::{global_stats, pop_info_views, pop_infos, GlobalStats, PopInfo};

verus! {

/// A store of the control plane. Its view is what it holds.
///
/// The operations that change the store ask that what it holds is well
/// formed, and leave it so.
pub trait RepositoryTrait: View<V = RepositoryView> {
    /// Stores an event. An event that shares its identifier, or its source
    /// and detector's identifier, with a stored one is refused, and nothing
    /// changes.
    fn insert_event(&mut self, event: &AttackEvent) -> (r: Result<(), StoreError>)
        requires
            old(self)@.wf(),
        ensures
            final(self)@.wf(),
            any(old(self)@.events, clashes_with(event@)) ==> r == Err::<(), StoreError>(
                StoreError::DuplicateKey,
            ) && final(self)@ == old(self)@,
            !any(old(self)@.events, clashes_with(event@)) ==> r == Ok::<(), StoreError>(())
                && final(self)@ == (RepositoryView {
                events: old(self)@.events.push(event@),
                ..old(self)@
            }),
    ;

    /// The event of one source with one detector's identifier, if it is
    /// stored.
    fn find_event_by_external_id(&self, source: &str, external_id: &str) -> (r: Result<
        Option<AttackEvent>,
        StoreError,
    >)
        ensures
            r is Ok,
            opt_event_view(r->Ok_0) == lookup(self@.events, has_external_id(source@, external_id@)),
    ;

    /// The events, newest first by the instant they were ingested; `limit`
    /// of them after skipping `offset`.
    fn list_events(&self, limit: u32, offset: u32) -> (r: Result<Vec<AttackEvent>, StoreError>)
        ensures
            r is Ok,
            event_views(r->Ok_0@) == page(
                rows_at(self@.events, listing(event_keys(self@.events))),
                limit,
                offset,
            ),
    ;

    /// Stores an audit line as the row that stands for it. A line that
    /// shares its identifier with a stored one is refused, and nothing
    /// changes.
    fn insert_audit(&mut self, entry: &AuditEntry) -> (r: Result<(), StoreError>)
        requires
            old(self)@.wf(),
        ensures
            final(self)@.wf(),
            any(old(self)@.audit, has_audit_id(entry.audit_id)) ==> r == Err::<(), StoreError>(
                StoreError::DuplicateKey,
            ) && final(self)@ == old(self)@,
            !any(old(self)@.audit, has_audit_id(entry.audit_id)) ==> r == Ok::<(), StoreError>(())
                && final(self)@ == (RepositoryView {
                audit: old(self)@.audit.push(row_of_entry(entry@)),
                ..old(self)@
            }),
    ;

    /// The audit lines, newest first by their timestamp; `limit` of them
    /// after skipping `offset`. Each comes back as the entry that its row
    /// stands for.
    fn list_audit(&self, limit: u32, offset: u32) -> (r: Result<Vec<AuditEntry>, StoreError>)
        ensures
            r is Ok,
            audit_entry_views(r->Ok_0@) == entries_of_rows(
                page(rows_at(self@.audit, listing(audit_keys(self@.audit))), limit, offset),
            ),
    ;

    /// Stores a mitigation. One that shares its identifier with a stored
    /// one is refused as a duplicate. One that holds its scope while a
    /// stored one holds the same scope at the same POP is refused as
    /// conflicting. Nothing changes when a mitigation is refused.
    fn insert_mitigation(&mut self, m: &Mitigation) -> (r: Result<(), StoreError>)
        requires
            old(self)@.wf(),
        ensures
            final(self)@.wf(),
            any(old(self)@.mitigations, has_id(m.mitigation_id)) ==> r == Err::<(), StoreError>(
                StoreError::DuplicateKey,
            ) && final(self)@ == old(self)@,
            !any(old(self)@.mitigations, has_id(m.mitigation_id)) && any(
                old(self)@.mitigations,
                collides_with(m@),
            ) ==> r == Err::<(), StoreError>(StoreError::ConflictingMitigation) && final(self)@
                == old(self)@,
            !any(old(self)@.mitigations, has_id(m.mitigation_id)) && !any(
                old(self)@.mitigations,
                collides_with(m@),
            ) ==> r == Ok::<(), StoreError>(()) && final(self)@ == (RepositoryView {
                mitigations: old(self)@.mitigations.push(m@),
                ..old(self)@
            }),
    ;

    /// Updates the stored mitigation that has the identifier of `m`, as
    /// [`updated`] says. Where none has it, nothing changes. Where the
    /// updated row would hold the scope that another stored mitigation holds
    /// at the same POP, the update is refused and nothing changes.
    fn update_mitigation(&mut self, m: &Mitigation) -> (r: Result<(), StoreError>)
        requires
            old(self)@.wf(),
        ensures
            final(self)@.wf(),
            ({
                let rows = old(self)@.mitigations;
                let at = position(rows, has_id(m.mitigation_id));
                if at >= rows.len() {
                    r == Ok::<(), StoreError>(()) && final(self)@ == old(self)@
                } else if collides_elsewhere(rows, at, updated(rows[at], m@)) {
                    r == Err::<(), StoreError>(StoreError::ConflictingMitigation) && final(self)@
                        == old(self)@
                } else {
                    r == Ok::<(), StoreError>(()) && final(self)@ == (RepositoryView {
                        mitigations: rows.update(at, updated(rows[at], m@)),
                        ..old(self)@
                    })
                }
            }),
    ;

    /// The mitigation with the given identifier, if it is stored.
    fn get_mitigation(&self, id: u128) -> (r: Result<Option<Mitigation>, StoreError>)
        ensures
            r is Ok,
            opt_mitigation_view(r->Ok_0) == lookup(self@.mitigations, has_id(id)),
    ;

    /// The mitigation that holds the given scope at the given POP, if there
    /// is one.
    fn find_active_by_scope(&self, scope_hash: &str, pop: &str) -> (r: Result<
        Option<Mitigation>,
        StoreError,
    >)
        ensures
            r is Ok,
            opt_mitigation_view(r->Ok_0) == lookup(
                self@.mitigations,
                active_in_scope(scope_hash@, pop@),
            ),
    ;

    /// The mitigations that hold their scope and protect the given victim, in
    /// the order in which they were stored.
    fn find_active_by_victim(&self, victim_ip: &str) -> (r: Result<Vec<Mitigation>, StoreError>)
        ensures
            r is Ok,
            mitigation_views(r->Ok_0@) == self@.mitigations.filter(active_for_victim(victim_ip@)),
    ;

    /// The mitigations that the filters show, newest first by the instant
    /// they were created; `limit` of them after skipping `offset`.
    fn list_mitigations(
        &self,
        status_filter: Option<&[MitigationStatus]>,
        customer_id: Option<&str>,
        limit: u32,
        offset: u32,
    ) -> (r: Result<Vec<Mitigation>, StoreError>)
        ensures
            r is Ok,
            mitigation_views(r->Ok_0@) == page(
                rows_at(
                    self@.mitigations,
                    listing(
                        mitigation_keys(
                            self@.mitigations,
                            opt_statuses(status_filter),
                            opt_str(customer_id),
                        ),
                    ),
                ),
                limit,
                offset,
            ),
    ;

    /// How many mitigations of the given customer hold their scope, as a
    /// 32-bit number.
    fn count_active_by_customer(&self, customer_id: &str) -> (r: Result<u32, StoreError>)
        ensures
            r is Ok,
            r->Ok_0 == self@.mitigations.filter(active_for_customer(customer_id@)).len() as u32,
    ;

    /// How many mitigations hold their scope at the given POP, as a 32-bit
    /// number.
    fn count_active_by_pop(&self, pop: &str) -> (r: Result<u32, StoreError>)
        ensures
            r is Ok,
            r->Ok_0 == self@.mitigations.filter(active_at_pop(pop@)).len() as u32,
    ;

    /// How many mitigations hold their scope, as a 32-bit number.
    fn count_active_global(&self) -> (r: Result<u32, StoreError>)
        ensures
            r is Ok,
            r->Ok_0 == self@.mitigations.filter(active()).len() as u32,
    ;

    /// The announced mitigations whose time has run out at the instant the
    /// store takes for now.
    fn find_expired_mitigations(&self) -> (r: Result<Vec<Mitigation>, StoreError>)
        ensures
            r is Ok,
            exists|now: i64|
                mitigation_views(r->Ok_0@) == self@.mitigations.filter(#[trigger] expired_at(now)),
    ;

    /// Adds a prefix to the safelist, stamped with the instant the store
    /// takes for now. A prefix that is listed already is replaced, as
    /// [`upserted`] says for the kind of database.
    fn insert_safelist(&mut self, prefix: &str, added_by: &str, reason: Option<&str>) -> (r:
        Result<(), StoreError>)
        requires
            old(self)@.wf(),
        ensures
            final(self)@.wf(),
            r == Ok::<(), StoreError>(()),
            exists|now: i64|
                final(self)@ == (RepositoryView {
                    safelist: #[trigger] upserted(
                        old(self)@.pool,
                        old(self)@.safelist,
                        prefix@,
                        added_by@,
                        opt_str(reason),
                        now,
                    ),
                    ..old(self)@
                }),
    ;

    /// Takes a prefix off the safelist, and tells whether it was listed.
    fn remove_safelist(&mut self, prefix: &str) -> (r: Result<bool, StoreError>)
        requires
            old(self)@.wf(),
        ensures
            final(self)@.wf(),
            ({
                let list = old(self)@.safelist;
                let at = position(list, has_prefix(prefix@));
                if at < list.len() {
                    r == Ok::<bool, StoreError>(true) && final(self)@ == (RepositoryView {
                        safelist: list.remove(at),
                        ..old(self)@
                    })
                } else {
                    r == Ok::<bool, StoreError>(false) && final(self)@ == old(self)@
                }
            }),
    ;

    /// The safelist, in the order in which its entries were stored.
    fn list_safelist(&self) -> (r: Result<Vec<SafelistEntry>, StoreError>)
        ensures
            r is Ok,
            entry_views(r->Ok_0@) == self@.safelist,
    ;

    /// Whether the safelist protects what `ip` names at the instant the
    /// store takes for now.
    fn is_safelisted(&self, ip: &str) -> (r: Result<bool, StoreError>)
        ensures
            exists|now: i64|
                r == Ok::<bool, StoreError>(#[trigger] safelisted(self@.safelist, ip@, now)),
    ;

    /// Every POP that has mitigations, in ascending order of the POPs, with
    /// the number of its mitigations whose status is `Active` and the number
    /// of all its mitigations.
    fn list_pops(&self) -> (r: Result<Vec<PopInfo>, StoreError>)
        ensures
            r is Ok,
            pop_info_views(r->Ok_0@) == pop_infos(self@.mitigations),
    ;

    /// The statistics over all POPs: the mitigations whose status is
    /// `Active`, all mitigations, all events, and a line for each POP.
    fn get_stats(&self) -> (r: Result<GlobalStats, StoreError>)
        ensures
            r is Ok,
            r->Ok_0@ == global_stats(self@.mitigations, self@.events.len()),
    ;

    /// The mitigations of every POP that the filters show, newest first by
    /// the instant they were created; `limit` of them after skipping
    /// `offset`.
    fn list_mitigations_all_pops(
        &self,
        status_filter: Option<&[MitigationStatus]>,
        customer_id: Option<&str>,
        limit: u32,
        offset: u32,
    ) -> (r: Result<Vec<Mitigation>, StoreError>)
        ensures
            r is Ok,
            mitigation_views(r->Ok_0@) == page(
                rows_at(
                    self@.mitigations,
                    listing(
                        mitigation_keys(
                            self@.mitigations,
                            opt_statuses(status_filter),
                            opt_str(customer_id),
                        ),
                    ),
                ),
                limit,
                offset,
            ),
    ;
}

impl RepositoryTrait for Repository {
    fn insert_event(&mut self, event: &AttackEvent) -> (r: Result<(), StoreError>) {
        Repository::insert_event(self, event)
    }

    fn find_event_by_external_id(&self, source: &str, external_id: &str) -> (r: Result<
        Option<AttackEvent>,
        StoreError,
    >) {
        Repository::find_event_by_external_id(self, source, external_id)
    }

    fn list_events(&self, limit: u32, offset: u32) -> (r: Result<Vec<AttackEvent>, StoreError>) {
        Repository::list_events(self, limit, offset)
    }

    fn insert_audit(&mut self, entry: &AuditEntry) -> (r: Result<(), StoreError>) {
        Repository::insert_audit(self, entry)
    }

    fn list_audit(&self, limit: u32, offset: u32) -> (r: Result<Vec<AuditEntry>, StoreError>) {
        Repository::list_audit(self, limit, offset)
    }

    fn insert_mitigation(&mut self, m: &Mitigation) -> (r: Result<(), StoreError>) {
        Repository::insert_mitigation(self, m)
    }

    fn update_mitigation(&mut self, m: &Mitigation) -> (r: Result<(), StoreError>) {
        Repository::update_mitigation(self, m)
    }

    fn get_mitigation(&self, id: u128) -> (r: Result<Option<Mitigation>, StoreError>) {
        Repository::get_mitigation(self, id)
    }

    fn find_active_by_scope(&self, scope_hash: &str, pop: &str) -> (r: Result<
        Option<Mitigation>,
        StoreError,
    >) {
        Repository::find_active_by_scope(self, scope_hash, pop)
    }

    fn find_active_by_victim(&self, victim_ip: &str) -> (r: Result<Vec<Mitigation>, StoreError>) {
        Repository::find_active_by_victim(self, victim_ip)
    }

    fn list_mitigations(
        &self,
        status_filter: Option<&[MitigationStatus]>,
        customer_id: Option<&str>,
        limit: u32,
        offset: u32,
    ) -> (r: Result<Vec<Mitigation>, StoreError>) {
        Repository::list_mitigations(self, status_filter, customer_id, limit, offset)
    }

    fn count_active_by_customer(&self, customer_id: &str) -> (r: Result<u32, StoreError>) {
        Repository::count_active_by_customer(self, customer_id)
    }

    fn count_active_by_pop(&self, pop: &str) -> (r: Result<u32, StoreError>) {
        Repository::count_active_by_pop(self, pop)
    }

    fn count_active_global(&self) -> (r: Result<u32, StoreError>) {
        Repository::count_active_global(self)
    }

    fn find_expired_mitigations(&self) -> (r: Result<Vec<Mitigation>, StoreError>) {
        Repository::find_expired_mitigations(self)
    }

    fn insert_safelist(&mut self, prefix: &str, added_by: &str, reason: Option<&str>) -> (r:
        Result<(), StoreError>) {
        Repository::insert_safelist(self, prefix, added_by, reason)
    }

    fn remove_safelist(&mut self, prefix: &str) -> (r: Result<bool, StoreError>) {
        Repository::remove_safelist(self, prefix)
    }

    fn list_safelist(&self) -> (r: Result<Vec<SafelistEntry>, StoreError>) {
        Repository::list_safelist(self)
    }

    fn is_safelisted(&self, ip: &str) -> (r: Result<bool, StoreError>) {
        Repository::is_safelisted(self, ip)
    }

    fn list_pops(&self) -> (r: Result<Vec<PopInfo>, StoreError>) {
        Repository::list_pops(self)
    }

    fn get_stats(&self) -> (r: Result<GlobalStats, StoreError>) {
        Repository::get_stats(self)
    }

    fn list_mitigations_all_pops(
        &self,
        status_filter: Option<&[MitigationStatus]>,
        customer_id: Option<&str>,
        limit: u32,
        offset: u32,
    ) -> (r: Result<Vec<Mitigation>, StoreError>) {
        Repository::list_mitigations_all_pops(self, status_filter, customer_id, limit, offset)
    }
}

} // verus!

//! Reconciliation: bringing what the routers advertise in line with what is
//! stored.
//!
//! The reconciler does not talk to the routers. It says what is to be done
//! next, one thing at a time; the caller does it and reports what came of it
//! as a trigger, which moves the mitigation along its life and leaves one
//! line in the audit log. Withdrawals come before announcements. A scope
//! that was withdrawn is not announced again before the quiet period is
//! over.

use vstd::prelude::*;

use crate::audit::{row_of_entry, ActorType, AuditEntry, AuditEntryView};
use crate::config::{before_seconds, instant_after, seconds};
use crate::decision::{Engine, EngineView};
use crate::domain::{
    holds_scope, is_announced, opt_text, Mitigation, MitigationStatus, MitigationView,
};
use crate::lifecycle::{move_to, moved, next_status, step, Trigger};
use crate::repository::{
    collides_elsewhere, has_audit_id, has_id, lemma_mitigation_id_is_unique, mitigation_views,
    scopes_collide, updated, Repository, RepositoryView, StoreError,
};
use crate::scope::{hex128, hex128_of};
use crate::search::{any, lemma_first_where, lemma_first_where_is, lemma_lookup_iff_any, position};
use crate::stats::text_views;
use crate::text::str_eq;

verus! {

/// Why a mitigation could not be moved along its life.
#[derive(Clone, Copy, Debug, PartialEq, Eq, Structural)]
pub enum TransitionError {
    /// No mitigation has the identifier.
    NotFound,
    /// The trigger does not apply to the status of the mitigation.
    NotAllowed,
    /// The identifier for the line in the audit log is taken already.
    DuplicateKey,
}

/// What the reconciler asks for next.
#[derive(Clone, Copy, Debug, PartialEq, Eq, Structural)]
pub enum ReconcileAction {
    /// The mitigation at this position of the table has run out of time:
    /// report `Expire`.
    Expire(usize),
    /// The mitigation at this position waits to be withdrawn: withdraw its
    /// rule and report `WithdrawOk`, or `WithdrawFailed`, with `grace_over`
    /// as given here.
    Withdraw { at: usize, grace_over: bool },
    /// The mitigation at this position cannot be announced before it runs
    /// out of time: report `AnnounceFailed` with `exhausted`.
    GiveUp(usize),
    /// The mitigation at this position is to be announced: announce its
    /// rule and report `AnnounceOk` or `AnnounceFailed`.
    Announce(usize),
    /// The mitigation at this position waits to be withdrawn, but an
    /// announced mitigation holds its scope: leave the rule alone and report
    /// `WithdrawOk`.
    Retire(usize),
    /// The advertised scope at this position of the advertised list belongs
    /// to no mitigation: withdraw it.
    WithdrawStray(usize),
    /// Nothing is left to do.
    Idle,
}

/// The name of a trigger in the audit log.
pub open spec fn trigger_name(trigger: Trigger) -> Seq<char> {
    match trigger {
        Trigger::AnnounceOk => "announce_ok"@,
        Trigger::AnnounceFailed { exhausted } => "announce_fail"@,
        Trigger::Escalate => "escalate"@,
        Trigger::Expire => "expire"@,
        Trigger::OperatorWithdraw => "operator_withdraw"@,
        Trigger::WithdrawOk => "withdraw_ok"@,
        Trigger::WithdrawFailed { grace_over } => "withdraw_fail"@,
    }
}

/// The line of the audit log that records a trigger: an operator's
/// withdrawal is the operator's doing, everything else the system's.
pub open spec fn trigger_audit(
    id: u128,
    trigger: Trigger,
    actor: Option<Seq<char>>,
    now: i64,
    audit_id: u128,
) -> AuditEntryView {
    AuditEntryView {
        audit_id,
        timestamp: now,
        schema_version: 1,
        actor_type: if trigger == Trigger::OperatorWithdraw {
            ActorType::Operator
        } else {
            ActorType::System
        },
        actor_id: actor,
        action: trigger_name(trigger),
        target_type: Some("mitigation"@),
        target_id: Some(hex128(id)),
        details: "{}"@,
    }
}

/// Whether `r` and `after` are what a trigger leads to.
///
/// Where no mitigation has the identifier, where the trigger does not apply
/// to its status, or where the identifier for the audit log is taken,
/// nothing changes. Otherwise the mitigation is moved, and one line is
/// appended to the audit log.
pub open spec fn triggered(
    before: RepositoryView,
    id: u128,
    trigger: Trigger,
    actor: Option<Seq<char>>,
    now: i64,
    audit_id: u128,
    r: Result<MitigationStatus, TransitionError>,
    after: RepositoryView,
) -> bool {
    let rows = before.mitigations;
    let at = position(rows, has_id(id));
    if at >= rows.len() {
        r == Err::<MitigationStatus, TransitionError>(TransitionError::NotFound) && after == before
    } else if next_status(rows[at].status, trigger) is None {
        r == Err::<MitigationStatus, TransitionError>(TransitionError::NotAllowed) && after
            == before
    } else if any(before.audit, has_audit_id(audit_id)) {
        r == Err::<MitigationStatus, TransitionError>(TransitionError::DuplicateKey) && after
            == before
    } else {
        let next = next_status(rows[at].status, trigger)->0;
        r == Ok::<MitigationStatus, TransitionError>(next) && after == (RepositoryView {
            mitigations: rows.update(at, moved(rows[at], next, now)),
            audit: before.audit.push(row_of_entry(trigger_audit(id, trigger, actor, now, audit_id))),
            ..before
        })
    }
}

/// A trigger that applies moves one mitigation and appends exactly one line
/// to the audit log; one that does not apply changes nothing.
pub proof fn lemma_one_trigger_one_audit_line(
    before: RepositoryView,
    id: u128,
    trigger: Trigger,
    actor: Option<Seq<char>>,
    now: i64,
    audit_id: u128,
    r: Result<MitigationStatus, TransitionError>,
    after: RepositoryView,
)
    requires
        triggered(before, id, trigger, actor, now, audit_id, r, after),
    ensures
        r is Ok ==> after.audit.len() == before.audit.len() + 1 && after.audit.last().audit_id
            == audit_id && after.mitigations.len() == before.mitigations.len() && after.events
            == before.events && after.safelist == before.safelist,
        r is Err ==> after == before,
        r is Ok ==> {
            let at = position(before.mitigations, has_id(id));
            &&& 0 <= at < before.mitigations.len()
            &&& after.mitigations[at].status == r->Ok_0
            &&& after.mitigations[at].updated_at == now
            &&& forall|k: int|
                0 <= k < before.mitigations.len() && k != at ==> after.mitigations[k]
                    == before.mitigations[k]
        },
{
    lemma_first_where(before.mitigations, has_id(id), 0);
}

/// The name of a trigger in the audit log.
pub fn trigger_label(trigger: Trigger) -> (name: &'static str)
    ensures
        name@ == trigger_name(trigger),
{
    match trigger {
        Trigger::AnnounceOk => "announce_ok",
        Trigger::AnnounceFailed { exhausted } => "announce_fail",
        Trigger::Escalate => "escalate",
        Trigger::Expire => "expire",
        Trigger::OperatorWithdraw => "operator_withdraw",
        Trigger::WithdrawOk => "withdraw_ok",
        Trigger::WithdrawFailed { grace_over } => "withdraw_fail",
    }
}

/// Moves a mitigation along its life and records it in the audit log.
pub fn apply_trigger_with(
    repo: &mut Repository,
    id: u128,
    trigger: Trigger,
    actor: Option<&str>,
    now: i64,
    audit_id: u128,
) -> (r: Result<MitigationStatus, TransitionError>)
    ensures
        final(repo)@.wf(),
        triggered(
            old(repo)@,
            id,
            trigger,
            crate::repository::opt_str(actor),
            now,
            audit_id,
            r,
            final(repo)@,
        ),
{
    let ghost before = repo@;
    let ghost rows = before.mitigations;
    let ghost at = position(rows, has_id(id));
    let stored = match repo.get_mitigation(id) {
        Ok(Some(m)) => m,
        _ => {
            return Err(TransitionError::NotFound);
        },
    };
    proof {
        lemma_first_where(rows, has_id(id), 0);
    }
    let next = match step(stored.status, trigger) {
        Some(next) => next,
        None => {
            return Err(TransitionError::NotAllowed);
        },
    };
    if repo.has_audit(audit_id) {
        return Err(TransitionError::DuplicateKey);
    }
    let row = move_to(stored, next, now);
    proof {
        assert(updated(rows[at], row@) == row@);
        if collides_elsewhere(rows, at, row@) {
            let j = choose|j: int|
                0 <= j < rows.len() && j != at && scopes_collide(#[trigger] rows[j], row@);
            assert(scopes_collide(rows[j], rows[at]));
        }
    }
    let updated_row = repo.update_mitigation(&row);
    let is_operator = match trigger {
        Trigger::OperatorWithdraw => true,
        _ => false,
    };
    let entry = AuditEntry {
        audit_id,
        timestamp: now,
        schema_version: 1,
        actor_type: if is_operator {
            ActorType::Operator
        } else {
            ActorType::System
        },
        actor_id: match actor {
            Some(a) => Some(a.to_owned()),
            None => None,
        },
        action: trigger_label(trigger).to_owned(),
        target_type: Some("mitigation".to_owned()),
        target_id: Some(hex128_of(id)),
        details: "{}".to_owned(),
    };
    assert(entry@ == trigger_audit(id, trigger, crate::repository::opt_str(actor), now, audit_id));
    let logged = repo.insert_audit(&entry);
    Ok(next)
}

/// What is asked of a row of the same scope.
#[derive(Clone, Copy, Debug, PartialEq, Eq, Structural)]
pub enum Kind {
    /// It is pending.
    Pending,
    /// It is announced: active or stepped up.
    Announced,
    /// It holds the scope or waits to be withdrawn.
    Claim,
    /// It was withdrawn after the given instant.
    WithdrawnSince(i64),
}

/// What the reconciler looks for in the table.
#[derive(Clone, Copy, Debug, PartialEq, Eq, Structural)]
pub enum Want {
    Due,
    Withdrawal,
    Hopeless,
    Announcement,
    Retirement,
}

/// Whether a row is of a kind.
pub open spec fn row_is(kind: Kind, m: MitigationView) -> bool {
    match kind {
        Kind::Pending => m.status == MitigationStatus::Pending,
        Kind::Announced => is_announced(m.status),
        Kind::Claim => holds_scope(m.status) || m.status == MitigationStatus::Withdrawing,
        Kind::WithdrawnSince(since) => m.status == MitigationStatus::Withdrawn && m.withdrawn_at
            is Some && m.withdrawn_at->0 > since,
    }
}

/// Whether some row of the given scope at the given POP is of a kind.
pub open spec fn some_row(rows: Seq<MitigationView>, pop: Seq<char>, scope: Seq<char>, kind: Kind) -> bool {
    exists|i: int|
        0 <= i < rows.len() && (#[trigger] rows[i]).pop == pop && rows[i].scope_hash == scope
            && row_is(kind, rows[i])
}

/// Whether a scope is in its quiet period at `now`: a mitigation of the
/// scope at this POP was withdrawn less than `quiet` seconds ago.
pub open spec fn in_quiet_period(
    rows: Seq<MitigationView>,
    pop: Seq<char>,
    scope: Seq<char>,
    now: i64,
    quiet: u32,
) -> bool {
    some_row(rows, pop, scope, Kind::WithdrawnSince(instant_after(now, -seconds(quiet))))
}

/// The rows that the reconciler looks for.
///
/// Due: announced and out of time. Withdrawal: waiting to be withdrawn,
/// with no other mitigation holding the scope. Hopeless: pending and out of
/// time. Announcement: pending, or announced but not advertised, and the
/// scope not in its quiet period. Retirement: waiting to be withdrawn while
/// an announced mitigation holds the scope.
pub open spec fn wanted(
    want: Want,
    rows: Seq<MitigationView>,
    advertised: Seq<Seq<char>>,
    pop: Seq<char>,
    now: i64,
    quiet: u32,
) -> spec_fn(MitigationView) -> bool {
    |m: MitigationView|
        m.pop == pop && match want {
            Want::Due => is_announced(m.status) && m.expires_at < now,
            Want::Withdrawal => m.status == MitigationStatus::Withdrawing && !some_row(
                rows,
                pop,
                m.scope_hash,
                Kind::Pending,
            ) && !some_row(rows, pop, m.scope_hash, Kind::Announced),
            Want::Hopeless => m.status == MitigationStatus::Pending && m.expires_at < now,
            Want::Announcement => (m.status == MitigationStatus::Pending || (is_announced(m.status)
                && !advertised.contains(m.scope_hash))) && !in_quiet_period(
                rows,
                pop,
                m.scope_hash,
                now,
                quiet,
            ),
            Want::Retirement => m.status == MitigationStatus::Withdrawing && some_row(
                rows,
                pop,
                m.scope_hash,
                Kind::Announced,
            ),
        }
}

/// The advertised scopes that belong to no mitigation of this POP.
pub open spec fn stray(rows: Seq<MitigationView>, pop: Seq<char>) -> spec_fn(Seq<char>) -> bool {
    |scope: Seq<char>| !some_row(rows, pop, scope, Kind::Claim)
}

/// What the reconciler asks for next: the first of expiry, withdrawal,
/// giving up, announcement, retirement and the withdrawal of a stray scope
/// that there is something to do for; within each, the first row in the
/// order of the table.
pub open spec fn next_action(
    rows: Seq<MitigationView>,
    advertised: Seq<Seq<char>>,
    pop: Seq<char>,
    now: i64,
    quiet: u32,
    grace: u32,
) -> ReconcileAction {
    let due = position(rows, wanted(Want::Due, rows, advertised, pop, now, quiet));
    let gone = position(rows, wanted(Want::Withdrawal, rows, advertised, pop, now, quiet));
    let lost = position(rows, wanted(Want::Hopeless, rows, advertised, pop, now, quiet));
    let fresh = position(rows, wanted(Want::Announcement, rows, advertised, pop, now, quiet));
    let old = position(rows, wanted(Want::Retirement, rows, advertised, pop, now, quiet));
    let odd = position(advertised, stray(rows, pop));
    if due < rows.len() {
        ReconcileAction::Expire(due as usize)
    } else if gone < rows.len() {
        ReconcileAction::Withdraw {
            at: gone as usize,
            grace_over: rows[gone].updated_at <= instant_after(now, -seconds(grace)),
        }
    } else if lost < rows.len() {
        ReconcileAction::GiveUp(lost as usize)
    } else if fresh < rows.len() {
        ReconcileAction::Announce(fresh as usize)
    } else if old < rows.len() {
        ReconcileAction::Retire(old as usize)
    } else if odd < advertised.len() {
        ReconcileAction::WithdrawStray(odd as usize)
    } else {
        ReconcileAction::Idle
    }
}

/// Tells whether a row is of a kind.
fn is_kind(kind: Kind, m: &Mitigation) -> (yes: bool)
    ensures
        yes == row_is(kind, m@),
{
    match kind {
        Kind::Pending => match m.status {
            MitigationStatus::Pending => true,
            _ => false,
        },
        Kind::Announced => m.status.is_announced(),
        Kind::Claim => m.status.holds_scope() || match m.status {
            MitigationStatus::Withdrawing => true,
            _ => false,
        },
        Kind::WithdrawnSince(since) => match (m.status, m.withdrawn_at) {
            (MitigationStatus::Withdrawn, Some(at)) => at > since,
            _ => false,
        },
    }
}

/// Tells whether some row of the given scope at the given POP is of a kind.
pub fn has_row(rows: &Vec<Mitigation>, pop: &str, scope: &str, kind: Kind) -> (yes: bool)
    ensures
        yes == some_row(mitigation_views(rows@), pop@, scope@, kind),
{
    let ghost views = mitigation_views(rows@);
    let mut i: usize = 0;
    while i < rows.len()
        invariant
            i <= rows.len(),
            views == mitigation_views(rows@),
            forall|k: int|
                0 <= k < i ==> !((#[trigger] views[k]).pop == pop@ && views[k].scope_hash == scope@
                    && row_is(kind, views[k])),
        decreases rows.len() - i,
    {
        let m = &rows[i];
        assert(views[i as int] == m@);
        if str_eq(m.pop.as_str(), pop) && str_eq(m.scope_hash.as_str(), scope) && is_kind(kind, m) {
            return true;
        }
        i = i + 1;
    }
    false
}

/// Tells whether a scope is among the advertised ones.
pub fn is_advertised(advertised: &Vec<String>, scope: &str) -> (yes: bool)
    ensures
        yes == text_views(advertised@).contains(scope@),
{
    let ghost views = text_views(advertised@);
    let mut i: usize = 0;
    while i < advertised.len()
        invariant
            i <= advertised.len(),
            views == text_views(advertised@),
            forall|k: int| 0 <= k < i ==> views[k] != scope@,
        decreases advertised.len() - i,
    {
        assert(views[i as int] == advertised@[i as int]@);
        if str_eq(advertised[i].as_str(), scope) {
            return true;
        }
        i = i + 1;
    }
    false
}

/// Tells whether a row is one that the reconciler looks for.
fn wants(
    want: Want,
    rows: &Vec<Mitigation>,
    advertised: &Vec<String>,
    pop: &str,
    now: i64,
    quiet: u32,
    m: &Mitigation,
) -> (yes: bool)
    ensures
        yes == wanted(want, mitigation_views(rows@), text_views(advertised@), pop@, now, quiet)(m@),
{
    if !str_eq(m.pop.as_str(), pop) {
        return false;
    }
    let scope = m.scope_hash.as_str();
    match want {
        Want::Due => m.status.is_announced() && m.expires_at < now,
        Want::Withdrawal => match m.status {
            MitigationStatus::Withdrawing => !has_row(rows, pop, scope, Kind::Pending) && !has_row(
                rows,
                pop,
                scope,
                Kind::Announced,
            ),
            _ => false,
        },
        Want::Hopeless => match m.status {
            MitigationStatus::Pending => m.expires_at < now,
            _ => false,
        },
        Want::Announcement => {
            let needs = match m.status {
                MitigationStatus::Pending => true,
                _ => m.status.is_announced() && !is_advertised(advertised, scope),
            };
            needs && !has_row(rows, pop, scope, Kind::WithdrawnSince(before_seconds(now, quiet)))
        },
        Want::Retirement => match m.status {
            MitigationStatus::Withdrawing => has_row(rows, pop, scope, Kind::Announced),
            _ => false,
        },
    }
}

/// The position of the first row that the reconciler looks for; the length
/// of the table if there is none.
fn first_wanted(
    want: Want,
    rows: &Vec<Mitigation>,
    advertised: &Vec<String>,
    pop: &str,
    now: i64,
    quiet: u32,
) -> (at: usize)
    ensures
        at == position(
            mitigation_views(rows@),
            wanted(want, mitigation_views(rows@), text_views(advertised@), pop@, now, quiet),
        ),
        at <= rows.len(),
{
    let ghost views = mitigation_views(rows@);
    let ghost pred = wanted(want, views, text_views(advertised@), pop@, now, quiet);
    let mut i: usize = 0;
    while i < rows.len()
        invariant
            i <= rows.len(),
            views == mitigation_views(rows@),
            pred == wanted(want, views, text_views(advertised@), pop@, now, quiet),
            forall|k: int| 0 <= k < i ==> !pred(#[trigger] views[k]),
        decreases rows.len() - i,
    {
        assert(views[i as int] == rows@[i as int]@);
        if wants(want, rows, advertised, pop, now, quiet, &rows[i]) {
            proof {
                lemma_first_where_is(views, pred, 0, i as int);
            }
            return i;
        }
        i = i + 1;
    }
    proof {
        lemma_first_where_is(views, pred, 0, i as int);
    }
    i
}

/// Says what is to be done next, given the table of mitigations and the
/// scopes that the routers advertise.
#[verifier::loop_isolation(false)]
pub fn next_action_of(
    rows: &Vec<Mitigation>,
    advertised: &Vec<String>,
    pop: &str,
    now: i64,
    quiet: u32,
    grace: u32,
) -> (action: ReconcileAction)
    ensures
        action == next_action(
            mitigation_views(rows@),
            text_views(advertised@),
            pop@,
            now,
            quiet,
            grace,
        ),
{
    let due = first_wanted(Want::Due, rows, advertised, pop, now, quiet);
    if due < rows.len() {
        return ReconcileAction::Expire(due);
    }
    let gone = first_wanted(Want::Withdrawal, rows, advertised, pop, now, quiet);
    if gone < rows.len() {
        assert(mitigation_views(rows@)[gone as int] == rows@[gone as int]@);
        return ReconcileAction::Withdraw {
            at: gone,
            grace_over: rows[gone].updated_at <= before_seconds(now, grace),
        };
    }
    let lost = first_wanted(Want::Hopeless, rows, advertised, pop, now, quiet);
    if lost < rows.len() {
        return ReconcileAction::GiveUp(lost);
    }
    let fresh = first_wanted(Want::Announcement, rows, advertised, pop, now, quiet);
    if fresh < rows.len() {
        return ReconcileAction::Announce(fresh);
    }
    let old = first_wanted(Want::Retirement, rows, advertised, pop, now, quiet);
    if old < rows.len() {
        return ReconcileAction::Retire(old);
    }
    let ghost views = mitigation_views(rows@);
    let ghost scopes = text_views(advertised@);
    let ghost pred = stray(views, pop@);
    let mut i: usize = 0;
    while i < advertised.len()
        invariant
            i <= advertised.len(),
            views == mitigation_views(rows@),
            scopes == text_views(advertised@),
            pred == stray(views, pop@),
            forall|k: int| 0 <= k < i ==> !pred(#[trigger] scopes[k]),
        decreases advertised.len() - i,
    {
        assert(scopes[i as int] == advertised@[i as int]@);
        if !has_row(rows, pop, advertised[i].as_str(), Kind::Claim) {
            proof {
                lemma_first_where_is(scopes, pred, 0, i as int);
            }
            return ReconcileAction::WithdrawStray(i);
        }
        i = i + 1;
    }
    proof {
        lemma_first_where_is(scopes, pred, 0, i as int);
    }
    ReconcileAction::Idle
}

/// A scope that was withdrawn is not announced again in its quiet period:
/// where the reconciler asks for an announcement, the scope of the
/// mitigation is not in its quiet period.
pub proof fn lemma_no_announcement_in_quiet_period(
    rows: Seq<MitigationView>,
    advertised: Seq<Seq<char>>,
    pop: Seq<char>,
    now: i64,
    quiet: u32,
    grace: u32,
)
    requires
        rows.len() <= usize::MAX,
    ensures
        match next_action(rows, advertised, pop, now, quiet, grace) {
            ReconcileAction::Announce(at) => at < rows.len() && !in_quiet_period(
                rows,
                pop,
                rows[at as int].scope_hash,
                now,
                quiet,
            ) && rows[at as int].pop == pop,
            _ => true,
        },
{
    let pred = wanted(Want::Announcement, rows, advertised, pop, now, quiet);
    lemma_first_where(rows, pred, 0);
}

/// Withdrawals come before announcements: where the reconciler asks for an
/// announcement, no announced mitigation is out of time and no mitigation
/// waits for a withdrawal that can be made.
pub proof fn lemma_withdrawals_come_first(
    rows: Seq<MitigationView>,
    advertised: Seq<Seq<char>>,
    pop: Seq<char>,
    now: i64,
    quiet: u32,
    grace: u32,
)
    ensures
        next_action(rows, advertised, pop, now, quiet, grace) is Announce ==> !any(
            rows,
            wanted(Want::Due, rows, advertised, pop, now, quiet),
        ) && !any(rows, wanted(Want::Withdrawal, rows, advertised, pop, now, quiet)),
{
    lemma_lookup_iff_any(rows, wanted(Want::Due, rows, advertised, pop, now, quiet));
    lemma_lookup_iff_any(rows, wanted(Want::Withdrawal, rows, advertised, pop, now, quiet));
}

impl Engine {
    /// Says what is to be done next to bring the routers in line with the
    /// repository at the instant `now`.
    pub fn reconcile_next(&self, repo: &Repository, advertised: &Vec<String>, now: i64) -> (r: (
        ReconcileAction,
        Vec<Mitigation>,
    ))
        ensures
            mitigation_views(r.1@) == repo@.mitigations,
            r.0 == next_action(
                repo@.mitigations,
                text_views(advertised@),
                self@.pop,
                now,
                self@.timers.quiet_period_after_withdraw_seconds,
                self@.timers.withdraw_force_grace_seconds,
            ),
    {
        let rows = repo.all_mitigations();
        let action = next_action_of(
            &rows,
            advertised,
            self.config.pop.as_str(),
            now,
            self.config.timers.quiet_period_after_withdraw_seconds,
            self.config.timers.withdraw_force_grace_seconds,
        );
        (action, rows)
    }
}

} // verus!

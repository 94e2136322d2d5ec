//! The life of a mitigation.
//!
//! A mitigation starts pending. Once announced it is active; an active one
//! may be marked as stepped up. Expiry or an operator start its withdrawal,
//! and a withdrawal that succeeds, or fails for too long, ends it. A pending
//! mitigation whose announcement fails for good is rejected. Nothing leads
//! out of `Withdrawn` or `Rejected`.

use vstd::prelude::*;

use crate::domain::{is_terminal, Mitigation, MitigationStatus, MitigationView};

verus! {

/// What happens to a mitigation.
#[derive(Clone, Copy, Debug, PartialEq, Eq, Structural)]
pub enum Trigger {
    AnnounceOk,
    /// The announcement failed; `exhausted` tells whether that was the last
    /// try.
    AnnounceFailed { exhausted: bool },
    /// A stronger mitigation takes this one's place.
    Escalate,
    Expire,
    OperatorWithdraw,
    WithdrawOk,
    /// The withdrawal failed; `grace_over` tells whether it has failed for
    /// too long.
    WithdrawFailed { grace_over: bool },
}

/// The status that a trigger leads to from a status; `None` where the
/// trigger does not apply there.
pub open spec fn next_status(status: MitigationStatus, trigger: Trigger) -> Option<MitigationStatus> {
    match (status, trigger) {
        (MitigationStatus::Pending, Trigger::AnnounceOk) => Some(MitigationStatus::Active),
        (MitigationStatus::Pending, Trigger::AnnounceFailed { exhausted }) => if exhausted {
            Some(MitigationStatus::Rejected)
        } else {
            Some(MitigationStatus::Pending)
        },
        (MitigationStatus::Active, Trigger::Escalate) => Some(MitigationStatus::Escalated),
        (MitigationStatus::Active, Trigger::Expire) => Some(MitigationStatus::Withdrawing),
        (MitigationStatus::Active, Trigger::OperatorWithdraw) => Some(MitigationStatus::Withdrawing),
        (MitigationStatus::Escalated, Trigger::Expire) => Some(MitigationStatus::Withdrawing),
        (MitigationStatus::Escalated, Trigger::OperatorWithdraw) => Some(
            MitigationStatus::Withdrawing,
        ),
        (MitigationStatus::Withdrawing, Trigger::WithdrawOk) => Some(MitigationStatus::Withdrawn),
        (MitigationStatus::Withdrawing, Trigger::WithdrawFailed { grace_over }) => if grace_over {
            Some(MitigationStatus::Withdrawn)
        } else {
            Some(MitigationStatus::Withdrawing)
        },
        _ => None,
    }
}

/// A mitigation moved to a status at the instant `now`: it is stamped as
/// updated, and as withdrawn if the status is final.
pub open spec fn moved(m: MitigationView, to: MitigationStatus, now: i64) -> MitigationView {
    MitigationView {
        status: to,
        updated_at: now,
        withdrawn_at: if is_terminal(to) {
            Some(now)
        } else {
            m.withdrawn_at
        },
        ..m
    }
}

/// Whether a mitigation is stamped as withdrawn exactly when its status is
/// final.
pub open spec fn well_dated(m: MitigationView) -> bool {
    m.withdrawn_at is Some <==> is_terminal(m.status)
}

/// Nothing leads out of a final status.
pub proof fn lemma_terminal_is_final(status: MitigationStatus, trigger: Trigger)
    requires
        is_terminal(status),
    ensures
        next_status(status, trigger) is None,
{
}

/// A mitigation that is stamped as withdrawn exactly when its status is
/// final stays so when it is moved along its life.
pub proof fn lemma_moved_stays_well_dated(m: MitigationView, trigger: Trigger, now: i64)
    requires
        well_dated(m),
        next_status(m.status, trigger) is Some,
    ensures
        well_dated(moved(m, next_status(m.status, trigger)->0, now)),
{
}

/// Stepping up takes an active mitigation to `Withdrawing` by way of the
/// triggers: marked as stepped up, then withdrawn like any stepped-up one.
pub proof fn lemma_escalation_path(status: MitigationStatus)
    requires
        status == MitigationStatus::Active,
    ensures
        next_status(status, Trigger::Escalate) == Some(MitigationStatus::Escalated),
        next_status(MitigationStatus::Escalated, Trigger::Expire) == Some(
            MitigationStatus::Withdrawing,
        ),
{
}

/// The status that a trigger leads to from a status.
pub fn step(status: MitigationStatus, trigger: Trigger) -> (next: Option<MitigationStatus>)
    ensures
        next == next_status(status, trigger),
{
    match (status, trigger) {
        (MitigationStatus::Pending, Trigger::AnnounceOk) => Some(MitigationStatus::Active),
        (MitigationStatus::Pending, Trigger::AnnounceFailed { exhausted }) => if exhausted {
            Some(MitigationStatus::Rejected)
        } else {
            Some(MitigationStatus::Pending)
        },
        (MitigationStatus::Active, Trigger::Escalate) => Some(MitigationStatus::Escalated),
        (MitigationStatus::Active, Trigger::Expire) => Some(MitigationStatus::Withdrawing),
        (MitigationStatus::Active, Trigger::OperatorWithdraw) => Some(MitigationStatus::Withdrawing),
        (MitigationStatus::Escalated, Trigger::Expire) => Some(MitigationStatus::Withdrawing),
        (MitigationStatus::Escalated, Trigger::OperatorWithdraw) => Some(
            MitigationStatus::Withdrawing,
        ),
        (MitigationStatus::Withdrawing, Trigger::WithdrawOk) => Some(MitigationStatus::Withdrawn),
        (MitigationStatus::Withdrawing, Trigger::WithdrawFailed { grace_over }) => if grace_over {
            Some(MitigationStatus::Withdrawn)
        } else {
            Some(MitigationStatus::Withdrawing)
        },
        _ => None,
    }
}

/// Moves a mitigation to a status at the instant `now`.
pub fn move_to(m: Mitigation, to: MitigationStatus, now: i64) -> (r: Mitigation)
    ensures
        r@ == moved(m@, to, now),
{
    let mut row = m;
    row.status = to;
    row.updated_at = now;
    if to.is_terminal() {
        row.withdrawn_at = Some(now);
    }
    row
}

} // verus!

//! Actions and their order of strength.
//!
//! Policing at a lower rate is stronger than policing at a higher one, and
//! discarding is stronger than any policing. Redirecting is neither stronger
//! nor weaker than anything, so nothing is ever stepped up to or from it.

use vstd::prelude::*;

use crate::domain::{ActionParams, ActionType};

verus! {

/// What is done to matching traffic: the kind of action with its parameters.
#[derive(Clone, Copy, Debug, PartialEq, Eq, Structural)]
pub struct Action {
    pub kind: ActionType,
    pub params: ActionParams,
}

/// Whether an action has a rate exactly when it polices.
pub open spec fn rate_matches_kind(kind: ActionType, params: ActionParams) -> bool {
    params.rate_bps is Some <==> kind == ActionType::Police
}

/// Whether `new` is strictly stronger than `old`.
pub open spec fn stronger(new: Action, old: Action) -> bool {
    match (old.kind, new.kind) {
        (ActionType::Police, ActionType::Discard) => true,
        (ActionType::Police, ActionType::Police) => match (old.params.rate_bps, new.params.rate_bps) {
            (Some(old_rate), Some(new_rate)) => new_rate < old_rate,
            _ => false,
        },
        _ => false,
    }
}

/// Nothing is stronger than itself.
pub proof fn lemma_stronger_irreflexive(a: Action)
    ensures
        !stronger(a, a),
{
}

/// Of two actions, at most one is stronger than the other.
pub proof fn lemma_stronger_asymmetric(a: Action, b: Action)
    requires
        stronger(a, b),
    ensures
        !stronger(b, a),
{
}

/// What is stronger than something stronger is stronger.
pub proof fn lemma_stronger_transitive(a: Action, b: Action, c: Action)
    requires
        stronger(a, b),
        stronger(b, c),
    ensures
        stronger(a, c),
{
}

/// Discarding is stronger than any policing, and nothing is stronger than
/// discarding.
pub proof fn lemma_discard_is_top(a: Action, d: Action)
    requires
        d.kind == ActionType::Discard,
    ensures
        a.kind == ActionType::Police ==> stronger(d, a),
        !stronger(a, d),
{
}

/// Redirecting is neither stronger nor weaker than anything.
pub proof fn lemma_redirect_is_apart(a: Action, r: Action)
    requires
        r.kind == ActionType::Redirect,
    ensures
        !stronger(a, r),
        !stronger(r, a),
{
}

impl Action {
    /// Policing at the given rate.
    pub fn police(rate_bps: u64) -> (a: Action)
        ensures
            a == (Action {
                kind: ActionType::Police,
                params: ActionParams { rate_bps: Some(rate_bps) },
            }),
            rate_matches_kind(a.kind, a.params),
    {
        Action { kind: ActionType::Police, params: ActionParams { rate_bps: Some(rate_bps) } }
    }

    /// Discarding.
    pub fn discard() -> (a: Action)
        ensures
            a == (Action { kind: ActionType::Discard, params: ActionParams { rate_bps: None } }),
            rate_matches_kind(a.kind, a.params),
    {
        Action { kind: ActionType::Discard, params: ActionParams { rate_bps: None } }
    }

    /// Redirecting.
    pub fn redirect() -> (a: Action)
        ensures
            a == (Action { kind: ActionType::Redirect, params: ActionParams { rate_bps: None } }),
            rate_matches_kind(a.kind, a.params),
    {
        Action { kind: ActionType::Redirect, params: ActionParams { rate_bps: None } }
    }

    /// Whether this action is strictly stronger than `old`.
    pub fn is_stronger_than(&self, old: &Action) -> (yes: bool)
        ensures
            yes == stronger(*self, *old),
    {
        match (old.kind, self.kind) {
            (ActionType::Police, ActionType::Discard) => true,
            (ActionType::Police, ActionType::Police) => match (
                old.params.rate_bps,
                self.params.rate_bps,
            ) {
                (Some(old_rate), Some(new_rate)) => new_rate < old_rate,
                _ => false,
            },
            _ => false,
        }
    }
}

} // verus!

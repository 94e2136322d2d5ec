//! Quotas: how many mitigations may hold their scope at once.
//!
//! A new mitigation is let through while every counter is below its cap. The
//! counters are looked at in a fixed order, and the first that has reached
//! its cap is the one the refusal names: the customer's, the POP's, the
//! global one, then the rate of creation.

use vstd::prelude::*;

use crate::config::Quotas;

verus! {

/// The cap that was reached.
#[derive(Clone, Copy, Debug, PartialEq, Eq, Structural)]
pub enum QuotaScope {
    Customer,
    Pop,
    Global,
    Rate,
}

/// The counters that are held against the caps.
#[derive(Clone, Copy, Debug, PartialEq, Eq, Structural)]
pub struct QuotaCounts {
    /// Mitigations of the customer that hold their scope; `None` where the
    /// owner is unknown.
    pub customer: Option<u32>,
    /// Mitigations that hold their scope at this POP.
    pub pop: u32,
    /// Mitigations that hold their scope anywhere.
    pub global: u32,
    /// Mitigations created within the last minute.
    pub new_per_minute: u32,
}

/// The name of a cap, as it is written into a rejection.
pub open spec fn scope_name(scope: QuotaScope) -> Seq<char> {
    match scope {
        QuotaScope::Customer => "customer"@,
        QuotaScope::Pop => "pop"@,
        QuotaScope::Global => "global"@,
        QuotaScope::Rate => "rate"@,
    }
}

/// The first cap that is reached, if one is.
pub open spec fn quota_verdict(caps: Quotas, counts: QuotaCounts) -> Result<(), QuotaScope> {
    if counts.customer is Some && counts.customer->0 >= caps.max_active_per_customer {
        Err(QuotaScope::Customer)
    } else if counts.pop >= caps.max_active_per_pop {
        Err(QuotaScope::Pop)
    } else if counts.global >= caps.max_active_global {
        Err(QuotaScope::Global)
    } else if counts.new_per_minute >= caps.max_new_per_minute {
        Err(QuotaScope::Rate)
    } else {
        Ok(())
    }
}

/// A mitigation is let through exactly when every counter is below its
/// cap.
pub proof fn lemma_quota_passes_below_caps(caps: Quotas, counts: QuotaCounts)
    ensures
        quota_verdict(caps, counts) is Ok <==> {
            &&& counts.customer is Some ==> counts.customer->0 < caps.max_active_per_customer
            &&& counts.pop < caps.max_active_per_pop
            &&& counts.global < caps.max_active_global
            &&& counts.new_per_minute < caps.max_new_per_minute
        },
{
}

impl QuotaScope {
    /// The name of this cap, as it is written into a rejection.
    pub fn as_str(&self) -> (name: &'static str)
        ensures
            name@ == scope_name(*self),
    {
        match self {
            QuotaScope::Customer => "customer",
            QuotaScope::Pop => "pop",
            QuotaScope::Global => "global",
            QuotaScope::Rate => "rate",
        }
    }
}

/// Tells whether a new mitigation is let through, and if not, which cap was
/// reached.
pub fn check_quota(caps: &Quotas, counts: &QuotaCounts) -> (r: Result<(), QuotaScope>)
    ensures
        r == quota_verdict(*caps, *counts),
{
    match counts.customer {
        Some(n) => {
            if n >= caps.max_active_per_customer {
                return Err(QuotaScope::Customer);
            }
        },
        None => {},
    }
    if counts.pop >= caps.max_active_per_pop {
        Err(QuotaScope::Pop)
    } else if counts.global >= caps.max_active_global {
        Err(QuotaScope::Global)
    } else if counts.new_per_minute >= caps.max_new_per_minute {
        Err(QuotaScope::Rate)
    } else {
        Ok(())
    }
}

} // verus!

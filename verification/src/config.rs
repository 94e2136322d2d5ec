//! The knobs of the control plane.
//!
//! Durations are whole seconds. Confidence is in millionths, from 0 to
//! 1,000,000.

use vstd::prelude::*;

verus! {

/// Whether rules are announced or only recorded.
#[derive(Clone, Copy, Debug, PartialEq, Eq, Structural)]
pub enum Mode {
    /// Decisions and state changes happen, but nothing is announced.
    DryRun,
    /// Rules are announced to the routers.
    Enforce,
}

/// The stance of a customer towards mitigation.
#[derive(Clone, Copy, Debug, PartialEq, Eq, Structural)]
pub enum PolicyProfile {
    /// Mitigations live longer.
    Permissive,
    Normal,
    /// Policing is not used: traffic is discarded instead.
    Strict,
}

/// How long mitigations live and how often they are reconciled.
#[derive(Clone, Copy, Debug, PartialEq, Eq, Structural)]
pub struct Timers {
    pub default_ttl_seconds: u32,
    pub min_ttl_seconds: u32,
    pub max_ttl_seconds: u32,
    pub correlation_window_seconds: u32,
    pub reconciliation_interval_seconds: u32,
    pub quiet_period_after_withdraw_seconds: u32,
    /// How long a withdrawal may fail before the mitigation is taken for
    /// withdrawn.
    pub withdraw_force_grace_seconds: u32,
    /// By how much a permissive customer's default time to live is
    /// multiplied.
    pub permissive_ttl_factor: u32,
}

/// What shapes of rule are allowed.
#[derive(Clone, Copy, Debug, PartialEq, Eq, Structural)]
pub struct Guardrails {
    pub require_ttl: bool,
    pub dst_prefix_minlen_v4: u8,
    pub dst_prefix_maxlen_v4: u8,
    pub dst_prefix_minlen_v6: u8,
    pub dst_prefix_maxlen_v6: u8,
    pub max_ports: u32,
    pub allow_src_prefix_match: bool,
    pub allow_tcp_flags_match: bool,
    pub allow_fragment_match: bool,
    pub allow_packet_length_match: bool,
}

/// How many mitigations may hold their scope at once, and how many may be
/// created per minute.
#[derive(Clone, Copy, Debug, PartialEq, Eq, Structural)]
pub struct Quotas {
    pub max_active_per_customer: u32,
    pub max_active_per_pop: u32,
    pub max_active_global: u32,
    pub max_new_per_minute: u32,
}

/// When a mitigation is stepped up to a stronger action.
#[derive(Clone, Copy, Debug, PartialEq, Eq, Structural)]
pub struct Escalation {
    pub enabled: bool,
    pub min_persistence_seconds: u32,
    /// In millionths.
    pub min_confidence: u32,
    pub max_escalated_duration_seconds: u32,
}

/// The configuration of one POP.
#[derive(Debug)]
pub struct Config {
    /// This POP's identifier.
    pub pop: String,
    pub mode: Mode,
    pub timers: Timers,
    pub guardrails: Guardrails,
    pub quotas: Quotas,
    pub escalation: Escalation,
    /// Whether an event for a victim that no customer owns is rejected.
    pub require_known_victim: bool,
}

/// One second, in the unit of instants.
pub const MICROS_PER_SECOND: i64 = 1_000_000;

/// A number of seconds as a span of instants.
pub open spec fn seconds(n: u32) -> int {
    n * MICROS_PER_SECOND
}

/// A number of seconds as a span of instants.
pub fn seconds_to_micros(n: u32) -> (span: i64)
    ensures
        span == seconds(n),
        0 <= span <= 4_294_967_295_000_000,
{
    (n as i64) * MICROS_PER_SECOND
}

/// The instant `span` after `at`, or the last instant there is if that lies
/// beyond it.
pub open spec fn instant_after(at: i64, span: int) -> i64 {
    if at + span > i64::MAX {
        i64::MAX
    } else if at + span < i64::MIN {
        i64::MIN
    } else {
        (at + span) as i64
    }
}

/// The instant `n` seconds after `at`, or the last instant there is if that
/// lies beyond it.
pub fn after_seconds(at: i64, n: u32) -> (then: i64)
    ensures
        then == instant_after(at, seconds(n)),
        then >= at,
{
    let span = seconds_to_micros(n);
    if at > i64::MAX - span {
        i64::MAX
    } else {
        at + span
    }
}

/// The instant `n` seconds before `at`, or the first instant there is if
/// that lies before it.
pub fn before_seconds(at: i64, n: u32) -> (then: i64)
    ensures
        then == instant_after(at, -seconds(n)),
        then <= at,
{
    let span = seconds_to_micros(n);
    if at < i64::MIN + span {
        i64::MIN
    } else {
        at - span
    }
}

/// A time to live brought into the allowed range: no less than `min`, and
/// no more than `max`; where `min` exceeds `max`, `max` wins.
pub open spec fn clamped(ttl: u32, min: u32, max: u32) -> u32 {
    if ttl > max {
        max
    } else if ttl < min {
        if min > max {
            max
        } else {
            min
        }
    } else {
        ttl
    }
}

/// Brings a time to live into the allowed range.
pub fn clamp_ttl(ttl: u32, min: u32, max: u32) -> (r: u32)
    ensures
        r == clamped(ttl, min, max),
        r <= max,
        min <= max ==> min <= r,
{
    if ttl > max {
        max
    } else if ttl < min {
        if min > max {
            max
        } else {
            min
        }
    } else {
        ttl
    }
}

/// A clamped time to live lies in the allowed range, and a time to live
/// that lay in it already is left as it was.
pub proof fn lemma_clamped_in_range(ttl: u32, min: u32, max: u32)
    requires
        min <= max,
    ensures
        min <= clamped(ttl, min, max) <= max,
        min <= ttl <= max ==> clamped(ttl, min, max) == ttl,
{
}

impl Timers {
    /// The time to live of a new mitigation: what the step asks for, or the
    /// default where it asks for nothing, multiplied for a permissive
    /// customer; then brought into the allowed range.
    pub open spec fn ttl_for(self, asked: Option<u32>, profile: PolicyProfile) -> u32 {
        let base: int = match asked {
            Some(ttl) => ttl as int,
            None => if profile == PolicyProfile::Permissive {
                self.default_ttl_seconds * self.permissive_ttl_factor
            } else {
                self.default_ttl_seconds as int
            },
        };
        let capped: u32 = if base > u32::MAX {
            u32::MAX
        } else {
            base as u32
        };
        clamped(capped, self.min_ttl_seconds, self.max_ttl_seconds)
    }

    /// The time to live of a new mitigation.
    pub fn ttl(&self, asked: Option<u32>, profile: PolicyProfile) -> (ttl: u32)
        ensures
            ttl == self.ttl_for(asked, profile),
            ttl <= self.max_ttl_seconds,
            self.min_ttl_seconds <= self.max_ttl_seconds ==> self.min_ttl_seconds <= ttl,
    {
        let base: u64 = match asked {
            Some(ttl) => ttl as u64,
            None => match profile {
                PolicyProfile::Permissive => {
                    assert(self.default_ttl_seconds * self.permissive_ttl_factor
                        <= 0xffff_ffff * 0xffff_ffff) by (nonlinear_arith)
                        requires
                            self.default_ttl_seconds <= 0xffff_ffff,
                            self.permissive_ttl_factor <= 0xffff_ffff,
                    ;
                    (self.default_ttl_seconds as u64) * (self.permissive_ttl_factor as u64)
                },
                _ => self.default_ttl_seconds as u64,
            },
        };
        let capped: u32 = if base > 0xffff_ffff {
            0xffff_ffff
        } else {
            base as u32
        };
        clamp_ttl(capped, self.min_ttl_seconds, self.max_ttl_seconds)
    }
}

} // verus!

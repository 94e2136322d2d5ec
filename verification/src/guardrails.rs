//! Guardrails: the check that every proposed rule has an allowed shape.
//!
//! A proposal is checked in a fixed order, and the first thing wrong with it
//! is the reason it is refused for: the prefix and the victim, then the
//! ports, then the match features, then the time to live, then the rate.

use vstd::prelude::*;

use crate::config::Guardrails;
use crate::domain::{ActionParams, ActionType, MatchCriteria};
use crate::net::{
    ip_net_parse, parse_ip_net, prefix_contains, prefix_holds, prefix_valid, IpAddress, IpPrefix,
};

verus! {

/// Why a proposed rule is refused.
#[derive(Clone, Copy, Debug, PartialEq, Eq, Structural)]
pub enum GuardrailError {
    /// The prefix is shorter than allowed: the rule would touch too much.
    PrefixTooBroad,
    /// The prefix is longer than allowed.
    PrefixTooNarrow,
    TooManyPorts,
    /// The rule matches on something that is switched off.
    DisallowedMatchFeature,
    MissingTtl,
    /// A policing rule without a rate above zero.
    RateNotPositive,
    /// The prefix does not read as a network, or the victim is not in it.
    VictimNotInPrefix,
}

/// What a rule matches on besides its destination.
#[derive(Clone, Copy, Debug, PartialEq, Eq, Structural)]
pub struct MatchFeatures {
    pub src_prefix: bool,
    pub tcp_flags: bool,
    pub fragment: bool,
    pub packet_length: bool,
}

/// The name of a reason, as it is written into a rejection.
pub open spec fn guardrail_name(e: GuardrailError) -> Seq<char> {
    match e {
        GuardrailError::PrefixTooBroad => "PrefixTooBroad"@,
        GuardrailError::PrefixTooNarrow => "PrefixTooNarrow"@,
        GuardrailError::TooManyPorts => "TooManyPorts"@,
        GuardrailError::DisallowedMatchFeature => "DisallowedMatchFeature"@,
        GuardrailError::MissingTtl => "MissingTtl"@,
        GuardrailError::RateNotPositive => "RateNotPositive"@,
        GuardrailError::VictimNotInPrefix => "VictimNotInPrefix"@,
    }
}

/// Whether a rule uses a match feature that is switched off.
pub open spec fn uses_disallowed(config: Guardrails, features: MatchFeatures) -> bool {
    ||| features.src_prefix && !config.allow_src_prefix_match
    ||| features.tcp_flags && !config.allow_tcp_flags_match
    ||| features.fragment && !config.allow_fragment_match
    ||| features.packet_length && !config.allow_packet_length_match
}

/// The shortest prefix length allowed for the family of `addr`.
pub open spec fn min_len(config: Guardrails, addr: IpAddress) -> u8 {
    match addr {
        IpAddress::V4(_) => config.dst_prefix_minlen_v4,
        IpAddress::V6(_) => config.dst_prefix_minlen_v6,
    }
}

/// The longest prefix length allowed for the family of `addr`.
pub open spec fn max_len(config: Guardrails, addr: IpAddress) -> u8 {
    match addr {
        IpAddress::V4(_) => config.dst_prefix_maxlen_v4,
        IpAddress::V6(_) => config.dst_prefix_maxlen_v6,
    }
}

/// What the guardrails say of a proposal, given what its prefix parsed to.
pub open spec fn verdict_with(
    config: Guardrails,
    prefix: Option<IpPrefix>,
    victim: IpAddress,
    ports: int,
    features: MatchFeatures,
    action: ActionType,
    params: ActionParams,
    ttl_seconds: Option<u32>,
) -> Result<(), GuardrailError> {
    if prefix is None {
        Err(GuardrailError::VictimNotInPrefix)
    } else if prefix->0.len < min_len(config, prefix->0.addr) {
        Err(GuardrailError::PrefixTooBroad)
    } else if prefix->0.len > max_len(config, prefix->0.addr) {
        Err(GuardrailError::PrefixTooNarrow)
    } else if !prefix_holds(prefix->0, victim) {
        Err(GuardrailError::VictimNotInPrefix)
    } else if ports > config.max_ports {
        Err(GuardrailError::TooManyPorts)
    } else if uses_disallowed(config, features) {
        Err(GuardrailError::DisallowedMatchFeature)
    } else if config.require_ttl && (ttl_seconds is None || ttl_seconds == Some(0u32)) {
        Err(GuardrailError::MissingTtl)
    } else if action == ActionType::Police && (params.rate_bps is None || params.rate_bps == Some(
        0u64,
    )) {
        Err(GuardrailError::RateNotPositive)
    } else {
        Ok(())
    }
}

/// What the guardrails say of a proposal.
pub open spec fn verdict(
    config: Guardrails,
    dst_prefix: Seq<char>,
    victim: IpAddress,
    ports: int,
    features: MatchFeatures,
    action: ActionType,
    params: ActionParams,
    ttl_seconds: Option<u32>,
) -> Result<(), GuardrailError> {
    verdict_with(
        config,
        ip_net_parse(dst_prefix),
        victim,
        ports,
        features,
        action,
        params,
        ttl_seconds,
    )
}

impl GuardrailError {
    /// The name of this reason, as it is written into a rejection.
    pub fn as_str(&self) -> (name: &'static str)
        ensures
            name@ == guardrail_name(*self),
    {
        match self {
            GuardrailError::PrefixTooBroad => "PrefixTooBroad",
            GuardrailError::PrefixTooNarrow => "PrefixTooNarrow",
            GuardrailError::TooManyPorts => "TooManyPorts",
            GuardrailError::DisallowedMatchFeature => "DisallowedMatchFeature",
            GuardrailError::MissingTtl => "MissingTtl",
            GuardrailError::RateNotPositive => "RateNotPositive",
            GuardrailError::VictimNotInPrefix => "VictimNotInPrefix",
        }
    }
}

impl MatchFeatures {
    /// A rule that matches on its destination only.
    pub fn none() -> (f: MatchFeatures)
        ensures
            f == (MatchFeatures {
                src_prefix: false,
                tcp_flags: false,
                fragment: false,
                packet_length: false,
            }),
    {
        MatchFeatures { src_prefix: false, tcp_flags: false, fragment: false, packet_length: false }
    }
}

/// Checks a proposal, given what its prefix parsed to.
pub fn validate_with(
    config: &Guardrails,
    prefix: Option<IpPrefix>,
    victim: IpAddress,
    ports: usize,
    features: MatchFeatures,
    action: ActionType,
    params: ActionParams,
    ttl_seconds: Option<u32>,
) -> (r: Result<(), GuardrailError>)
    requires
        match prefix {
            Some(p) => prefix_valid(p),
            None => true,
        },
    ensures
        r == verdict_with(
            *config,
            prefix,
            victim,
            ports as int,
            features,
            action,
            params,
            ttl_seconds,
        ),
{
    let prefix = match prefix {
        Some(p) => p,
        None => {
            return Err(GuardrailError::VictimNotInPrefix);
        },
    };
    let (min, max) = match prefix.addr {
        IpAddress::V4(_) => (config.dst_prefix_minlen_v4, config.dst_prefix_maxlen_v4),
        IpAddress::V6(_) => (config.dst_prefix_minlen_v6, config.dst_prefix_maxlen_v6),
    };
    if prefix.len < min {
        return Err(GuardrailError::PrefixTooBroad);
    }
    if prefix.len > max {
        return Err(GuardrailError::PrefixTooNarrow);
    }
    if !prefix_contains(prefix, victim) {
        return Err(GuardrailError::VictimNotInPrefix);
    }
    if ports as u64 > config.max_ports as u64 {
        return Err(GuardrailError::TooManyPorts);
    }
    if (features.src_prefix && !config.allow_src_prefix_match) || (features.tcp_flags
        && !config.allow_tcp_flags_match) || (features.fragment && !config.allow_fragment_match)
        || (features.packet_length && !config.allow_packet_length_match) {
        return Err(GuardrailError::DisallowedMatchFeature);
    }
    if config.require_ttl {
        match ttl_seconds {
            None => {
                return Err(GuardrailError::MissingTtl);
            },
            Some(ttl) => {
                if ttl == 0 {
                    return Err(GuardrailError::MissingTtl);
                }
            },
        }
    }
    match action {
        ActionType::Police => match params.rate_bps {
            None => Err(GuardrailError::RateNotPositive),
            Some(rate) => if rate == 0 {
                Err(GuardrailError::RateNotPositive)
            } else {
                Ok(())
            },
        },
        _ => Ok(()),
    }
}

/// Checks a proposed rule against the guardrails.
pub fn validate(
    config: &Guardrails,
    criteria: &MatchCriteria,
    victim: IpAddress,
    features: MatchFeatures,
    action: ActionType,
    params: ActionParams,
    ttl_seconds: Option<u32>,
) -> (r: Result<(), GuardrailError>)
    ensures
        r == verdict(
            *config,
            criteria@.dst_prefix,
            victim,
            criteria@.dst_ports.len() as int,
            features,
            action,
            params,
            ttl_seconds,
        ),
{
    let prefix = parse_ip_net(criteria.dst_prefix.as_str());
    validate_with(
        config,
        prefix,
        victim,
        criteria.dst_ports.len(),
        features,
        action,
        params,
        ttl_seconds,
    )
}

} // verus!

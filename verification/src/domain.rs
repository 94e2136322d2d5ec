//! The entities of the control plane: attack events and mitigations.
//!
//! Identifiers are 128-bit numbers. Instants are microseconds since the Unix
//! epoch, in UTC. Each entity has a view, its mathematical content, in which
//! texts are sequences of characters and lists are sequences.

use vstd::prelude::*;

use crate::text::str_eq;

verus! {

/// The kind of attack that a detector reports.
#[derive(Clone, Copy, Debug, PartialEq, Eq, Structural)]
pub enum AttackVector {
    UdpFlood,
    SynFlood,
    IcmpFlood,
    DnsAmp,
    NtpAmp,
    /// A vector that this control plane has no name for.
    Unknown,
}

/// What a mitigation does to the traffic that matches it.
#[derive(Clone, Copy, Debug, PartialEq, Eq, Structural)]
pub enum ActionType {
    /// Rate-limit to `rate_bps`.
    Police,
    /// Drop.
    Discard,
    /// Send elsewhere.
    Redirect,
}

/// Where a mitigation stands in its life.
#[derive(Clone, Copy, Debug, PartialEq, Eq, Structural)]
pub enum MitigationStatus {
    Pending,
    Active,
    Escalated,
    Withdrawing,
    Withdrawn,
    Rejected,
}

/// The name under which a vector is stored.
pub open spec fn vector_name(vector: AttackVector) -> Seq<char> {
    match vector {
        AttackVector::UdpFlood => "udp_flood"@,
        AttackVector::SynFlood => "syn_flood"@,
        AttackVector::IcmpFlood => "icmp_flood"@,
        AttackVector::DnsAmp => "dns_amp"@,
        AttackVector::NtpAmp => "ntp_amp"@,
        AttackVector::Unknown => "unknown"@,
    }
}

/// The name under which an action is stored.
pub open spec fn action_name(action: ActionType) -> Seq<char> {
    match action {
        ActionType::Police => "police"@,
        ActionType::Discard => "discard"@,
        ActionType::Redirect => "redirect"@,
    }
}

/// The name under which a status is stored.
pub open spec fn status_name(status: MitigationStatus) -> Seq<char> {
    match status {
        MitigationStatus::Pending => "pending"@,
        MitigationStatus::Active => "active"@,
        MitigationStatus::Escalated => "escalated"@,
        MitigationStatus::Withdrawing => "withdrawing"@,
        MitigationStatus::Withdrawn => "withdrawn"@,
        MitigationStatus::Rejected => "rejected"@,
    }
}

/// Whether a mitigation in this status holds its scope: while it does, no
/// other mitigation of the same scope and POP may be created.
pub open spec fn holds_scope(status: MitigationStatus) -> bool {
    status == MitigationStatus::Pending || status == MitigationStatus::Active || status
        == MitigationStatus::Escalated
}

/// Whether a mitigation in this status has an announced rule that can expire.
pub open spec fn is_announced(status: MitigationStatus) -> bool {
    status == MitigationStatus::Active || status == MitigationStatus::Escalated
}

/// Whether a status is final: nothing leads out of it.
pub open spec fn is_terminal(status: MitigationStatus) -> bool {
    status == MitigationStatus::Withdrawn || status == MitigationStatus::Rejected
}

/// The vector that a stored name stands for; a name that stands for none is
/// the unknown vector.
pub open spec fn vector_of_name(name: Seq<char>) -> AttackVector {
    if name == "udp_flood"@ {
        AttackVector::UdpFlood
    } else if name == "syn_flood"@ {
        AttackVector::SynFlood
    } else if name == "icmp_flood"@ {
        AttackVector::IcmpFlood
    } else if name == "dns_amp"@ {
        AttackVector::DnsAmp
    } else if name == "ntp_amp"@ {
        AttackVector::NtpAmp
    } else {
        AttackVector::Unknown
    }
}

impl AttackVector {
    /// The vector that a stored name stands for.
    pub fn from_name(name: &str) -> (vector: AttackVector)
        ensures
            vector == vector_of_name(name@),
    {
        if str_eq(name, "udp_flood") {
            AttackVector::UdpFlood
        } else if str_eq(name, "syn_flood") {
            AttackVector::SynFlood
        } else if str_eq(name, "icmp_flood") {
            AttackVector::IcmpFlood
        } else if str_eq(name, "dns_amp") {
            AttackVector::DnsAmp
        } else if str_eq(name, "ntp_amp") {
            AttackVector::NtpAmp
        } else {
            AttackVector::Unknown
        }
    }

    /// The name under which this vector is stored.
    pub fn as_str(&self) -> (name: &'static str)
        ensures
            name@ == vector_name(*self),
    {
        match self {
            AttackVector::UdpFlood => "udp_flood",
            AttackVector::SynFlood => "syn_flood",
            AttackVector::IcmpFlood => "icmp_flood",
            AttackVector::DnsAmp => "dns_amp",
            AttackVector::NtpAmp => "ntp_amp",
            AttackVector::Unknown => "unknown",
        }
    }
}

/// The action that a stored name stands for, if it stands for one.
pub open spec fn action_of_name(name: Seq<char>) -> Option<ActionType> {
    if name == "police"@ {
        Some(ActionType::Police)
    } else if name == "discard"@ {
        Some(ActionType::Discard)
    } else if name == "redirect"@ {
        Some(ActionType::Redirect)
    } else {
        None
    }
}

/// The status that a stored name stands for, if it stands for one.
pub open spec fn status_of_name(name: Seq<char>) -> Option<MitigationStatus> {
    if name == "pending"@ {
        Some(MitigationStatus::Pending)
    } else if name == "active"@ {
        Some(MitigationStatus::Active)
    } else if name == "escalated"@ {
        Some(MitigationStatus::Escalated)
    } else if name == "withdrawing"@ {
        Some(MitigationStatus::Withdrawing)
    } else if name == "withdrawn"@ {
        Some(MitigationStatus::Withdrawn)
    } else if name == "rejected"@ {
        Some(MitigationStatus::Rejected)
    } else {
        None
    }
}

/// Storing an action under its name and reading the name back gives the
/// action.
pub proof fn lemma_action_name_round_trip(action: ActionType)
    ensures
        action_of_name(action_name(action)) == Some(action),
{
    reveal_strlit("police");
    reveal_strlit("discard");
    reveal_strlit("redirect");
    assert("police"@[0] == 'p');
    assert("discard"@[0] == 'd');
    assert("redirect"@[0] == 'r');
}

/// Storing a status under its name and reading the name back gives the
/// status.
pub proof fn lemma_status_name_round_trip(status: MitigationStatus)
    ensures
        status_of_name(status_name(status)) == Some(status),
{
    reveal_strlit("pending");
    reveal_strlit("active");
    reveal_strlit("escalated");
    reveal_strlit("withdrawing");
    reveal_strlit("withdrawn");
    reveal_strlit("rejected");
    assert("pending"@[0] == 'p');
    assert("active"@[0] == 'a');
    assert("escalated"@[0] == 'e');
    assert("withdrawing"@[0] == 'w');
    assert("withdrawn"@[0] == 'w');
    assert("rejected"@[0] == 'r');
    assert("withdrawing"@.len() == 11);
    assert("withdrawn"@.len() == 9);
}

/// Storing a vector under its name and reading the name back gives the
/// vector.
pub proof fn lemma_vector_name_round_trip(vector: AttackVector)
    ensures
        vector_of_name(vector_name(vector)) == vector,
{
    reveal_strlit("udp_flood");
    reveal_strlit("syn_flood");
    reveal_strlit("icmp_flood");
    reveal_strlit("dns_amp");
    reveal_strlit("ntp_amp");
    reveal_strlit("unknown");
    assert("udp_flood"@[0] == 'u' && "udp_flood"@[1] == 'd');
    assert("syn_flood"@[0] == 's');
    assert("icmp_flood"@[0] == 'i');
    assert("dns_amp"@[0] == 'd');
    assert("ntp_amp"@[0] == 'n' && "ntp_amp"@[1] == 't');
    assert("unknown"@[0] == 'u' && "unknown"@[1] == 'n');
}

impl ActionType {
    /// The action that a stored name stands for, if it stands for one.
    pub fn from_name(name: &str) -> (action: Option<ActionType>)
        ensures
            action == action_of_name(name@),
    {
        if str_eq(name, "police") {
            Some(ActionType::Police)
        } else if str_eq(name, "discard") {
            Some(ActionType::Discard)
        } else if str_eq(name, "redirect") {
            Some(ActionType::Redirect)
        } else {
            None
        }
    }

    /// The name under which this action is stored.
    pub fn as_str(&self) -> (name: &'static str)
        ensures
            name@ == action_name(*self),
    {
        match self {
            ActionType::Police => "police",
            ActionType::Discard => "discard",
            ActionType::Redirect => "redirect",
        }
    }
}

impl MitigationStatus {
    /// The status that a stored name stands for, if it stands for one.
    pub fn from_name(name: &str) -> (status: Option<MitigationStatus>)
        ensures
            status == status_of_name(name@),
    {
        if str_eq(name, "pending") {
            Some(MitigationStatus::Pending)
        } else if str_eq(name, "active") {
            Some(MitigationStatus::Active)
        } else if str_eq(name, "escalated") {
            Some(MitigationStatus::Escalated)
        } else if str_eq(name, "withdrawing") {
            Some(MitigationStatus::Withdrawing)
        } else if str_eq(name, "withdrawn") {
            Some(MitigationStatus::Withdrawn)
        } else if str_eq(name, "rejected") {
            Some(MitigationStatus::Rejected)
        } else {
            None
        }
    }

    /// The name under which this status is stored.
    pub fn as_str(&self) -> (name: &'static str)
        ensures
            name@ == status_name(*self),
    {
        match self {
            MitigationStatus::Pending => "pending",
            MitigationStatus::Active => "active",
            MitigationStatus::Escalated => "escalated",
            MitigationStatus::Withdrawing => "withdrawing",
            MitigationStatus::Withdrawn => "withdrawn",
            MitigationStatus::Rejected => "rejected",
        }
    }

    /// Whether a mitigation in this status holds its scope.
    pub fn holds_scope(&self) -> (yes: bool)
        ensures
            yes == holds_scope(*self),
    {
        match self {
            MitigationStatus::Pending => true,
            MitigationStatus::Active => true,
            MitigationStatus::Escalated => true,
            _ => false,
        }
    }

    /// Whether a mitigation in this status has an announced rule that can expire.
    pub fn is_announced(&self) -> (yes: bool)
        ensures
            yes == is_announced(*self),
    {
        match self {
            MitigationStatus::Active => true,
            MitigationStatus::Escalated => true,
            _ => false,
        }
    }

    /// Whether this status is final.
    pub fn is_terminal(&self) -> (yes: bool)
        ensures
            yes == is_terminal(*self),
    {
        match self {
            MitigationStatus::Withdrawn => true,
            MitigationStatus::Rejected => true,
            _ => false,
        }
    }
}

/// The view of an optional text.
pub open spec fn opt_text(text: Option<String>) -> Option<Seq<char>> {
    match text {
        Some(t) => Some(t@),
        None => None,
    }
}

/// Copies an optional text.
pub fn clone_opt_text(text: &Option<String>) -> (copy: Option<String>)
    ensures
        opt_text(copy) == opt_text(*text),
{
    match text {
        Some(t) => Some(t.clone()),
        None => None,
    }
}

/// Copies a list of ports.
pub fn clone_ports(ports: &Vec<u16>) -> (copy: Vec<u16>)
    ensures
        copy@ == ports@,
{
    let mut copy: Vec<u16> = Vec::new();
    let mut i: usize = 0;
    while i < ports.len()
        invariant
            i <= ports.len(),
            copy@ == ports@.subrange(0, i as int),
        decreases ports.len() - i,
    {
        copy.push(ports[i]);
        assert(copy@ =~= ports@.subrange(0, i + 1));
        i = i + 1;
    }
    assert(ports@.subrange(0, i as int) =~= ports@);
    copy
}

/// What traffic a mitigation applies to.
#[derive(Debug)]
pub struct MatchCriteria {
    /// Destination prefix in CIDR notation.
    pub dst_prefix: String,
    /// IANA protocol number; `None` matches any protocol.
    pub protocol: Option<u8>,
    /// Destination ports; empty matches any port.
    pub dst_ports: Vec<u16>,
}

/// The mathematical content of a [`MatchCriteria`].
pub struct MatchCriteriaView {
    pub dst_prefix: Seq<char>,
    pub protocol: Option<u8>,
    pub dst_ports: Seq<u16>,
}

impl View for MatchCriteria {
    type V = MatchCriteriaView;

    open spec fn view(&self) -> MatchCriteriaView {
        MatchCriteriaView {
            dst_prefix: self.dst_prefix@,
            protocol: self.protocol,
            dst_ports: self.dst_ports@,
        }
    }
}

impl Clone for MatchCriteria {
    fn clone(&self) -> (copy: Self)
        ensures
            copy@ == self@,
    {
        MatchCriteria {
            dst_prefix: self.dst_prefix.clone(),
            protocol: self.protocol,
            dst_ports: clone_ports(&self.dst_ports),
        }
    }
}

/// The parameters of an action.
#[derive(Clone, Copy, Debug, PartialEq, Eq, Structural)]
pub struct ActionParams {
    /// Rate in bits per second; present for police actions only.
    pub rate_bps: Option<u64>,
}

/// An attack reported by a detector. Events are written once and never change.
#[derive(Debug)]
pub struct AttackEvent {
    pub event_id: u128,
    /// The detector's own identifier; unique together with `source`.
    pub external_event_id: Option<String>,
    pub source: String,
    /// Assigned by the detector.
    pub event_timestamp: i64,
    /// Assigned by this server.
    pub ingested_at: i64,
    /// An IPv4 or IPv6 literal.
    pub victim_ip: String,
    pub vector: String,
    pub protocol: Option<u8>,
    pub bps: Option<u64>,
    pub pps: Option<u64>,
    /// The ports that received most traffic, as a JSON array.
    pub top_dst_ports_json: String,
    /// Confidence of the detector, in millionths: 0 to 1,000,000.
    pub confidence: Option<u32>,
}

/// The mathematical content of an [`AttackEvent`].
pub struct AttackEventView {
    pub event_id: u128,
    pub external_event_id: Option<Seq<char>>,
    pub source: Seq<char>,
    pub event_timestamp: i64,
    pub ingested_at: i64,
    pub victim_ip: Seq<char>,
    pub vector: Seq<char>,
    pub protocol: Option<u8>,
    pub bps: Option<u64>,
    pub pps: Option<u64>,
    pub top_dst_ports_json: Seq<char>,
    pub confidence: Option<u32>,
}

impl View for AttackEvent {
    type V = AttackEventView;

    open spec fn view(&self) -> AttackEventView {
        AttackEventView {
            event_id: self.event_id,
            external_event_id: opt_text(self.external_event_id),
            source: self.source@,
            event_timestamp: self.event_timestamp,
            ingested_at: self.ingested_at,
            victim_ip: self.victim_ip@,
            vector: self.vector@,
            protocol: self.protocol,
            bps: self.bps,
            pps: self.pps,
            top_dst_ports_json: self.top_dst_ports_json@,
            confidence: self.confidence,
        }
    }
}

impl Clone for AttackEvent {
    fn clone(&self) -> (copy: Self)
        ensures
            copy@ == self@,
    {
        AttackEvent {
            event_id: self.event_id,
            external_event_id: clone_opt_text(&self.external_event_id),
            source: self.source.clone(),
            event_timestamp: self.event_timestamp,
            ingested_at: self.ingested_at,
            victim_ip: self.victim_ip.clone(),
            vector: self.vector.clone(),
            protocol: self.protocol,
            bps: self.bps,
            pps: self.pps,
            top_dst_ports_json: self.top_dst_ports_json.clone(),
            confidence: self.confidence,
        }
    }
}

/// A rule that drops or rate-limits the traffic of one scope at one POP.
#[derive(Debug)]
pub struct Mitigation {
    pub mitigation_id: u128,
    /// Fingerprint of the match criteria.
    pub scope_hash: String,
    /// The POP that decided this mitigation.
    pub pop: String,
    pub customer_id: Option<String>,
    pub service_id: Option<String>,
    pub victim_ip: String,
    pub vector: AttackVector,
    pub match_criteria: MatchCriteria,
    pub action_type: ActionType,
    pub action_params: ActionParams,
    pub status: MitigationStatus,
    pub created_at: i64,
    pub updated_at: i64,
    pub expires_at: i64,
    pub withdrawn_at: Option<i64>,
    /// The event that created this mitigation.
    pub triggering_event_id: u128,
    /// The latest event that was correlated to it.
    pub last_event_id: u128,
    /// The mitigation that this one was stepped up from.
    pub escalated_from_id: Option<u128>,
    pub reason: String,
    pub rejection_reason: Option<String>,
}

/// The mathematical content of a [`Mitigation`].
pub struct MitigationView {
    pub mitigation_id: u128,
    pub scope_hash: Seq<char>,
    pub pop: Seq<char>,
    pub customer_id: Option<Seq<char>>,
    pub service_id: Option<Seq<char>>,
    pub victim_ip: Seq<char>,
    pub vector: AttackVector,
    pub match_criteria: MatchCriteriaView,
    pub action_type: ActionType,
    pub action_params: ActionParams,
    pub status: MitigationStatus,
    pub created_at: i64,
    pub updated_at: i64,
    pub expires_at: i64,
    pub withdrawn_at: Option<i64>,
    pub triggering_event_id: u128,
    pub last_event_id: u128,
    pub escalated_from_id: Option<u128>,
    pub reason: Seq<char>,
    pub rejection_reason: Option<Seq<char>>,
}

impl View for Mitigation {
    type V = MitigationView;

    open spec fn view(&self) -> MitigationView {
        MitigationView {
            mitigation_id: self.mitigation_id,
            scope_hash: self.scope_hash@,
            pop: self.pop@,
            customer_id: opt_text(self.customer_id),
            service_id: opt_text(self.service_id),
            victim_ip: self.victim_ip@,
            vector: self.vector,
            match_criteria: self.match_criteria@,
            action_type: self.action_type,
            action_params: self.action_params,
            status: self.status,
            created_at: self.created_at,
            updated_at: self.updated_at,
            expires_at: self.expires_at,
            withdrawn_at: self.withdrawn_at,
            triggering_event_id: self.triggering_event_id,
            last_event_id: self.last_event_id,
            escalated_from_id: self.escalated_from_id,
            reason: self.reason@,
            rejection_reason: opt_text(self.rejection_reason),
        }
    }
}

impl Clone for Mitigation {
    fn clone(&self) -> (copy: Self)
        ensures
            copy@ == self@,
    {
        Mitigation {
            mitigation_id: self.mitigation_id,
            scope_hash: self.scope_hash.clone(),
            pop: self.pop.clone(),
            customer_id: clone_opt_text(&self.customer_id),
            service_id: clone_opt_text(&self.service_id),
            victim_ip: self.victim_ip.clone(),
            vector: self.vector,
            match_criteria: self.match_criteria.clone(),
            action_type: self.action_type,
            action_params: self.action_params,
            status: self.status,
            created_at: self.created_at,
            updated_at: self.updated_at,
            expires_at: self.expires_at,
            withdrawn_at: self.withdrawn_at,
            triggering_event_id: self.triggering_event_id,
            last_event_id: self.last_event_id,
            escalated_from_id: self.escalated_from_id,
            reason: self.reason.clone(),
            rejection_reason: clone_opt_text(&self.rejection_reason),
        }
    }
}

} // verus!

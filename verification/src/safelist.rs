//! The safelist: prefixes that no mitigation may touch.

use vstd::prelude::*;

use crate::domain::{clone_opt_text, opt_text};
use crate::net::{
    ip_addr_parse, ip_net_parse, parse_ip_addr, parse_ip_net, prefix_contains, prefix_holds,
    prefix_valid, IpAddress, IpPrefix,
};
use crate::text::str_eq;

verus! {

/// One protected prefix.
#[derive(Debug)]
pub struct SafelistEntry {
    /// IP prefix in CIDR notation.
    pub prefix: String,
    /// When the entry was added.
    pub added_at: i64,
    /// Who added the entry.
    pub added_by: String,
    /// Why the prefix is protected.
    pub reason: Option<String>,
    /// When the entry stops protecting; `None` protects for good.
    pub expires_at: Option<i64>,
}

/// The mathematical content of a [`SafelistEntry`].
pub struct SafelistEntryView {
    pub prefix: Seq<char>,
    pub added_at: i64,
    pub added_by: Seq<char>,
    pub reason: Option<Seq<char>>,
    pub expires_at: Option<i64>,
}

impl View for SafelistEntry {
    type V = SafelistEntryView;

    open spec fn view(&self) -> SafelistEntryView {
        SafelistEntryView {
            prefix: self.prefix@,
            added_at: self.added_at,
            added_by: self.added_by@,
            reason: opt_text(self.reason),
            expires_at: self.expires_at,
        }
    }
}

impl Clone for SafelistEntry {
    fn clone(&self) -> (copy: Self)
        ensures
            copy@ == self@,
    {
        SafelistEntry {
            prefix: self.prefix.clone(),
            added_at: self.added_at,
            added_by: self.added_by.clone(),
            reason: clone_opt_text(&self.reason),
            expires_at: self.expires_at,
        }
    }
}

/// The views of a list of entries, in order.
pub open spec fn entry_views(entries: Seq<SafelistEntry>) -> Seq<SafelistEntryView> {
    entries.map_values(|e: SafelistEntry| e@)
}

/// Whether an entry still protects at the instant `now`: it has no expiry, or
/// its expiry lies in the future.
pub open spec fn entry_live(expires_at: Option<i64>, now: i64) -> bool {
    match expires_at {
        None => true,
        Some(t) => t > now,
    }
}

/// Whether a prefix protects an address, given what the prefix parsed to.
///
/// A prefix that reads as a network protects the addresses inside it. One
/// that does not protects the address it is written like.
pub open spec fn prefix_protects(
    parsed: Option<IpPrefix>,
    prefix: Seq<char>,
    ip: Seq<char>,
    addr: IpAddress,
) -> bool {
    match parsed {
        Some(net) => prefix_holds(net, addr),
        None => prefix == ip,
    }
}

/// Whether an entry protects the address `addr`, written `ip`, at `now`.
pub open spec fn entry_protects(
    entry: SafelistEntryView,
    ip: Seq<char>,
    addr: IpAddress,
    now: i64,
) -> bool {
    entry_live(entry.expires_at, now) && prefix_protects(
        ip_net_parse(entry.prefix),
        entry.prefix,
        ip,
        addr,
    )
}

/// Whether some entry protects the address `addr`, written `ip`, at `now`.
pub open spec fn some_entry_protects(
    entries: Seq<SafelistEntryView>,
    ip: Seq<char>,
    addr: IpAddress,
    now: i64,
) -> bool {
    exists|i: int| 0 <= i < entries.len() && entry_protects(#[trigger] entries[i], ip, addr, now)
}

/// Whether the safelist protects what `ip` names at `now`. A text that is no
/// IP address is never protected.
pub open spec fn safelisted(entries: Seq<SafelistEntryView>, ip: Seq<char>, now: i64) -> bool {
    match ip_addr_parse(ip) {
        Some(addr) => some_entry_protects(entries, ip, addr, now),
        None => false,
    }
}

/// Tells whether an entry still protects at the instant `now`.
pub fn is_live(expires_at: Option<i64>, now: i64) -> (live: bool)
    ensures
        live == entry_live(expires_at, now),
{
    match expires_at {
        None => true,
        Some(t) => t > now,
    }
}

/// Tells whether a prefix protects an address, given what the prefix parsed
/// to.
pub fn protects(parsed: Option<IpPrefix>, prefix: &str, ip: &str, addr: IpAddress) -> (yes: bool)
    requires
        match parsed {
            Some(net) => prefix_valid(net),
            None => true,
        },
    ensures
        yes == prefix_protects(parsed, prefix@, ip@, addr),
{
    match parsed {
        Some(net) => prefix_contains(net, addr),
        None => str_eq(prefix, ip),
    }
}

/// Tells whether some entry of the list protects the address `addr`, written
/// `ip`, at `now`.
pub fn covers_addr(entries: &Vec<SafelistEntry>, ip: &str, addr: IpAddress, now: i64) -> (yes:
    bool)
    ensures
        yes == some_entry_protects(entry_views(entries@), ip@, addr, now),
{
    let ghost views = entry_views(entries@);
    let mut i: usize = 0;
    while i < entries.len()
        invariant
            i <= entries.len(),
            views == entry_views(entries@),
            forall|k: int| 0 <= k < i ==> !entry_protects(#[trigger] views[k], ip@, addr, now),
        decreases entries.len() - i,
    {
        let entry = &entries[i];
        assert(views[i as int] == entry@);
        if is_live(entry.expires_at, now) {
            let parsed = parse_ip_net(entry.prefix.as_str());
            if protects(parsed, entry.prefix.as_str(), ip, addr) {
                return true;
            }
        }
        i = i + 1;
    }
    false
}

/// Tells whether the list protects what `ip` names at `now`.
pub fn safelist_covers(entries: &Vec<SafelistEntry>, ip: &str, now: i64) -> (yes: bool)
    ensures
        yes == safelisted(entry_views(entries@), ip@, now),
{
    match parse_ip_addr(ip) {
        Some(addr) => covers_addr(entries, ip, addr, now),
        None => false,
    }
}

} // verus!

//! The audit log: who did what, and to what.
//!
//! An entry is what the program works with. A row is how an entry is kept:
//! the actor as a lower-case name, the schema version as a signed number and
//! the details as JSON text.

use vstd::prelude::*;

use crate::domain::{clone_opt_text, opt_text};
use crate::json::{compact_json, json_compact};
use crate::text::str_eq;

verus! {

/// Who caused an audited action.
#[derive(Clone, Copy, Debug, PartialEq, Eq, Structural)]
pub enum ActorType {
    Operator,
    Detector,
    System,
}

/// One line of the audit log.
#[derive(Debug)]
pub struct AuditEntry {
    pub audit_id: u128,
    pub timestamp: i64,
    pub schema_version: u32,
    pub actor_type: ActorType,
    pub actor_id: Option<String>,
    pub action: String,
    pub target_type: Option<String>,
    pub target_id: Option<String>,
    /// Structured details, as JSON text.
    pub details: String,
}

/// The mathematical content of an [`AuditEntry`].
pub struct AuditEntryView {
    pub audit_id: u128,
    pub timestamp: i64,
    pub schema_version: u32,
    pub actor_type: ActorType,
    pub actor_id: Option<Seq<char>>,
    pub action: Seq<char>,
    pub target_type: Option<Seq<char>>,
    pub target_id: Option<Seq<char>>,
    pub details: Seq<char>,
}

/// One line of the audit log as it is kept.
#[derive(Debug)]
pub struct AuditRow {
    pub audit_id: u128,
    pub timestamp: i64,
    pub schema_version: i32,
    pub actor_type: String,
    pub actor_id: Option<String>,
    pub action: String,
    pub target_type: Option<String>,
    pub target_id: Option<String>,
    pub details_json: String,
}

/// The mathematical content of an [`AuditRow`].
pub struct AuditRowView {
    pub audit_id: u128,
    pub timestamp: i64,
    pub schema_version: i32,
    pub actor_type: Seq<char>,
    pub actor_id: Option<Seq<char>>,
    pub action: Seq<char>,
    pub target_type: Option<Seq<char>>,
    pub target_id: Option<Seq<char>>,
    pub details_json: Seq<char>,
}

impl View for AuditEntry {
    type V = AuditEntryView;

    open spec fn view(&self) -> AuditEntryView {
        AuditEntryView {
            audit_id: self.audit_id,
            timestamp: self.timestamp,
            schema_version: self.schema_version,
            actor_type: self.actor_type,
            actor_id: opt_text(self.actor_id),
            action: self.action@,
            target_type: opt_text(self.target_type),
            target_id: opt_text(self.target_id),
            details: self.details@,
        }
    }
}

impl View for AuditRow {
    type V = AuditRowView;

    open spec fn view(&self) -> AuditRowView {
        AuditRowView {
            audit_id: self.audit_id,
            timestamp: self.timestamp,
            schema_version: self.schema_version,
            actor_type: self.actor_type@,
            actor_id: opt_text(self.actor_id),
            action: self.action@,
            target_type: opt_text(self.target_type),
            target_id: opt_text(self.target_id),
            details_json: self.details_json@,
        }
    }
}

impl Clone for AuditEntry {
    fn clone(&self) -> (copy: Self)
        ensures
            copy@ == self@,
    {
        AuditEntry {
            audit_id: self.audit_id,
            timestamp: self.timestamp,
            schema_version: self.schema_version,
            actor_type: self.actor_type,
            actor_id: clone_opt_text(&self.actor_id),
            action: self.action.clone(),
            target_type: clone_opt_text(&self.target_type),
            target_id: clone_opt_text(&self.target_id),
            details: self.details.clone(),
        }
    }
}

impl Clone for AuditRow {
    fn clone(&self) -> (copy: Self)
        ensures
            copy@ == self@,
    {
        AuditRow {
            audit_id: self.audit_id,
            timestamp: self.timestamp,
            schema_version: self.schema_version,
            actor_type: self.actor_type.clone(),
            actor_id: clone_opt_text(&self.actor_id),
            action: self.action.clone(),
            target_type: clone_opt_text(&self.target_type),
            target_id: clone_opt_text(&self.target_id),
            details_json: self.details_json.clone(),
        }
    }
}

/// The name under which an actor type is kept.
pub open spec fn actor_name(actor: ActorType) -> Seq<char> {
    match actor {
        ActorType::Operator => "operator"@,
        ActorType::Detector => "detector"@,
        ActorType::System => "system"@,
    }
}

/// The actor type that a kept name stands for. A name that is neither
/// `operator` nor `detector` stands for the system.
pub open spec fn actor_of_name(name: Seq<char>) -> ActorType {
    if name == "operator"@ {
        ActorType::Operator
    } else if name == "detector"@ {
        ActorType::Detector
    } else {
        ActorType::System
    }
}

/// The schema version that a kept number stands for: the number itself, or,
/// for a negative one, the unsigned number with the same 32 bits.
pub open spec fn version_of_stored(stored: i32) -> u32 {
    if stored >= 0 {
        stored as u32
    } else {
        (stored + 0x1_0000_0000) as u32
    }
}

/// The number under which a schema version is kept: the version itself, or,
/// above the signed range, the negative number with the same 32 bits.
pub open spec fn stored_of_version(version: u32) -> i32 {
    if version <= 0x7fff_ffff {
        version as i32
    } else {
        (version - 0x1_0000_0000) as i32
    }
}

/// The details of an entry, given what its kept text parsed to: the compact
/// form of the text, or the empty object where the text is no JSON.
pub open spec fn details_or_empty(compact: Option<Seq<char>>) -> Seq<char> {
    match compact {
        Some(text) => text,
        None => "{}"@,
    }
}

/// The entry that a row stands for, given what its details parsed to.
pub open spec fn entry_of_row_with(row: AuditRowView, compact: Option<Seq<char>>) -> AuditEntryView {
    AuditEntryView {
        audit_id: row.audit_id,
        timestamp: row.timestamp,
        schema_version: version_of_stored(row.schema_version),
        actor_type: actor_of_name(row.actor_type),
        actor_id: row.actor_id,
        action: row.action,
        target_type: row.target_type,
        target_id: row.target_id,
        details: details_or_empty(compact),
    }
}

/// The entry that a row stands for.
pub open spec fn entry_of_row(row: AuditRowView) -> AuditEntryView {
    entry_of_row_with(row, json_compact(row.details_json))
}

/// The row under which an entry is kept.
pub open spec fn row_of_entry(entry: AuditEntryView) -> AuditRowView {
    AuditRowView {
        audit_id: entry.audit_id,
        timestamp: entry.timestamp,
        schema_version: stored_of_version(entry.schema_version),
        actor_type: actor_name(entry.actor_type),
        actor_id: entry.actor_id,
        action: entry.action,
        target_type: entry.target_type,
        target_id: entry.target_id,
        details_json: entry.details,
    }
}

/// Keeping a schema version and reading it back gives the same version.
pub proof fn lemma_version_round_trip(version: u32)
    ensures
        version_of_stored(stored_of_version(version)) == version,
{
}

/// Keeping an actor type and reading it back gives the same actor type.
pub proof fn lemma_actor_round_trip(actor: ActorType)
    ensures
        actor_of_name(actor_name(actor)) == actor,
{
    reveal_strlit("operator");
    reveal_strlit("detector");
    reveal_strlit("system");
    assert("operator"@[0] == 'o');
    assert("detector"@[0] == 'd');
    assert("system"@[0] == 's');
}

/// Keeping an entry and reading it back changes nothing but the details,
/// which come back in compact form, or as the empty object where they were
/// no JSON.
pub proof fn lemma_row_round_trip(entry: AuditEntryView)
    ensures
        entry_of_row(row_of_entry(entry)) == (AuditEntryView {
            details: details_or_empty(json_compact(entry.details)),
            ..entry
        }),
{
    lemma_version_round_trip(entry.schema_version);
    lemma_actor_round_trip(entry.actor_type);
}

impl ActorType {
    /// The name under which this actor type is kept.
    pub fn as_str(&self) -> (name: &'static str)
        ensures
            name@ == actor_name(*self),
    {
        match self {
            ActorType::Operator => "operator",
            ActorType::Detector => "detector",
            ActorType::System => "system",
        }
    }

    /// The actor type that a kept name stands for.
    pub fn from_name(name: &str) -> (actor: ActorType)
        ensures
            actor == actor_of_name(name@),
    {
        if str_eq(name, "operator") {
            ActorType::Operator
        } else if str_eq(name, "detector") {
            ActorType::Detector
        } else {
            ActorType::System
        }
    }
}

impl AuditEntry {
    /// Turns a row into the entry it stands for, given what its details
    /// parsed to.
    pub fn from_row_with(row: AuditRow, compact: Option<String>) -> (entry: AuditEntry)
        ensures
            entry@ == entry_of_row_with(row@, opt_text(compact)),
    {
        let actor_type = ActorType::from_name(row.actor_type.as_str());
        let schema_version: u32 = if row.schema_version >= 0 {
            row.schema_version as u32
        } else {
            (row.schema_version as i64 + 0x1_0000_0000) as u32
        };
        let details = match compact {
            Some(text) => text,
            None => "{}".to_owned(),
        };
        AuditEntry {
            audit_id: row.audit_id,
            timestamp: row.timestamp,
            schema_version,
            actor_type,
            actor_id: row.actor_id,
            action: row.action,
            target_type: row.target_type,
            target_id: row.target_id,
            details,
        }
    }

    /// Turns a row into the entry it stands for.
    pub fn from_row(row: AuditRow) -> (entry: AuditEntry)
        ensures
            entry@ == entry_of_row(row@),
    {
        let compact = compact_json(row.details_json.as_str());
        AuditEntry::from_row_with(row, compact)
    }

    /// The row under which this entry is kept.
    pub fn to_row(&self) -> (row: AuditRow)
        ensures
            row@ == row_of_entry(self@),
    {
        let schema_version: i32 = if self.schema_version <= 0x7fff_ffff {
            self.schema_version as i32
        } else {
            (self.schema_version as i64 - 0x1_0000_0000) as i32
        };
        AuditRow {
            audit_id: self.audit_id,
            timestamp: self.timestamp,
            schema_version,
            actor_type: self.actor_type.as_str().to_owned(),
            actor_id: clone_opt_text(&self.actor_id),
            action: self.action.clone(),
            target_type: clone_opt_text(&self.target_type),
            target_id: clone_opt_text(&self.target_id),
            details_json: self.details.clone(),
        }
    }
}

} // verus!

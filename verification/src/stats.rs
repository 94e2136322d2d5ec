//! Counts of mitigations by POP.
//!
//! The POPs of a table are the names that its rows carry, each once, in
//! ascending text order. For each POP the rows are counted twice: those
//! whose status is `Active`, and all of them. Counts are handed out as
//! 32-bit numbers.

use vstd::prelude::*;

use crate::domain::{Mitigation, MitigationStatus, MitigationView};
use crate::repository::mitigation_views;
use crate::search::lemma_filter_step;
use crate::text::{
    lemma_text_irreflexive, lemma_text_total, lemma_text_transitive, str_eq, str_lt, text_before,
};

verus! {

/// One POP with the number of mitigations it holds.
#[derive(Debug)]
pub struct PopInfo {
    /// POP identifier.
    pub pop: String,
    /// Number of active mitigations in this POP.
    pub active_mitigations: u32,
    /// Total mitigations (all statuses) in this POP.
    pub total_mitigations: u32,
}

/// The mathematical content of a [`PopInfo`].
pub struct PopInfoView {
    pub pop: Seq<char>,
    pub active_mitigations: u32,
    pub total_mitigations: u32,
}

/// One POP's line in the overall statistics.
#[derive(Debug)]
pub struct PopStats {
    /// POP identifier.
    pub pop: String,
    /// Active mitigations.
    pub active: u32,
    /// Total mitigations.
    pub total: u32,
}

/// The mathematical content of a [`PopStats`].
pub struct PopStatsView {
    pub pop: Seq<char>,
    pub active: u32,
    pub total: u32,
}

/// Statistics over all POPs.
#[derive(Debug)]
pub struct GlobalStats {
    /// Total active mitigations across all POPs.
    pub total_active: u32,
    /// Total mitigations across all POPs.
    pub total_mitigations: u32,
    /// Total events ingested.
    pub total_events: u32,
    /// Per-POP breakdown.
    pub pops: Vec<PopStats>,
}

/// The mathematical content of a [`GlobalStats`].
pub struct GlobalStatsView {
    pub total_active: u32,
    pub total_mitigations: u32,
    pub total_events: u32,
    pub pops: Seq<PopStatsView>,
}

impl View for PopInfo {
    type V = PopInfoView;

    open spec fn view(&self) -> PopInfoView {
        PopInfoView {
            pop: self.pop@,
            active_mitigations: self.active_mitigations,
            total_mitigations: self.total_mitigations,
        }
    }
}

impl View for PopStats {
    type V = PopStatsView;

    open spec fn view(&self) -> PopStatsView {
        PopStatsView { pop: self.pop@, active: self.active, total: self.total }
    }
}

impl View for GlobalStats {
    type V = GlobalStatsView;

    open spec fn view(&self) -> GlobalStatsView {
        GlobalStatsView {
            total_active: self.total_active,
            total_mitigations: self.total_mitigations,
            total_events: self.total_events,
            pops: pop_stats_views(self.pops@),
        }
    }
}

impl Clone for PopInfo {
    fn clone(&self) -> (copy: Self)
        ensures
            copy@ == self@,
    {
        PopInfo {
            pop: self.pop.clone(),
            active_mitigations: self.active_mitigations,
            total_mitigations: self.total_mitigations,
        }
    }
}

impl Clone for PopStats {
    fn clone(&self) -> (copy: Self)
        ensures
            copy@ == self@,
    {
        PopStats { pop: self.pop.clone(), active: self.active, total: self.total }
    }
}

/// The views of a list of texts, in order.
pub open spec fn text_views(texts: Seq<String>) -> Seq<Seq<char>> {
    texts.map_values(|t: String| t@)
}

/// The views of a list of POP counts, in order.
pub open spec fn pop_info_views(infos: Seq<PopInfo>) -> Seq<PopInfoView> {
    infos.map_values(|p: PopInfo| p@)
}

/// The views of a list of POP lines, in order.
pub open spec fn pop_stats_views(stats: Seq<PopStats>) -> Seq<PopStatsView> {
    stats.map_values(|p: PopStats| p@)
}

/// The first position at or after `from` whose name does not come before
/// `name`; the length of `names` if there is none.
pub open spec fn name_slot(names: Seq<Seq<char>>, name: Seq<char>, from: int) -> int
    decreases names.len() - from,
{
    if from >= names.len() || !text_before(names[from], name) {
        from
    } else {
        name_slot(names, name, from + 1)
    }
}

/// A sorted list of names with `name` put in, unless it stands there already.
pub open spec fn with_name(names: Seq<Seq<char>>, name: Seq<char>) -> Seq<Seq<char>> {
    let at = name_slot(names, name, 0);
    if at < names.len() && names[at] == name {
        names
    } else {
        names.insert(at, name)
    }
}

/// The POPs of the first `n` rows, each once, in ascending text order.
pub open spec fn pop_names_upto(rows: Seq<MitigationView>, n: int) -> Seq<Seq<char>>
    decreases n,
{
    if n <= 0 {
        Seq::empty()
    } else {
        with_name(pop_names_upto(rows, n - 1), rows[n - 1].pop)
    }
}

/// The POPs of a table, each once, in ascending text order.
pub open spec fn pop_names(rows: Seq<MitigationView>) -> Seq<Seq<char>> {
    pop_names_upto(rows, rows.len() as int)
}

/// The rows that a count takes in: those of the given POP, if one is given,
/// and only those whose status is `Active`, if `active_only`.
pub open spec fn tally(pop: Option<Seq<char>>, active_only: bool) -> spec_fn(MitigationView) -> bool {
    |m: MitigationView|
        (match pop {
            Some(name) => m.pop == name,
            None => true,
        }) && (!active_only || m.status == MitigationStatus::Active)
}

/// How many rows a count takes in, as a 32-bit number.
pub open spec fn tally_of(rows: Seq<MitigationView>, pop: Option<Seq<char>>, active_only: bool) -> u32 {
    rows.filter(tally(pop, active_only)).len() as u32
}

/// The counts of one POP.
pub open spec fn pop_info_of(rows: Seq<MitigationView>, name: Seq<char>) -> PopInfoView {
    PopInfoView {
        pop: name,
        active_mitigations: tally_of(rows, Some(name), true),
        total_mitigations: tally_of(rows, Some(name), false),
    }
}

/// The line of one POP in the overall statistics.
pub open spec fn pop_stats_of(rows: Seq<MitigationView>, name: Seq<char>) -> PopStatsView {
    PopStatsView {
        pop: name,
        active: tally_of(rows, Some(name), true),
        total: tally_of(rows, Some(name), false),
    }
}

/// The counts of every POP of a table, in ascending order of the POPs.
pub open spec fn pop_infos(rows: Seq<MitigationView>) -> Seq<PopInfoView> {
    pop_names(rows).map_values(|name: Seq<char>| pop_info_of(rows, name))
}

/// The statistics of a table of mitigations and a number of events.
pub open spec fn global_stats(rows: Seq<MitigationView>, events: nat) -> GlobalStatsView {
    GlobalStatsView {
        total_active: tally_of(rows, None, true),
        total_mitigations: rows.len() as u32,
        total_events: events as u32,
        pops: pop_names(rows).map_values(|name: Seq<char>| pop_stats_of(rows, name)),
    }
}

/// Whether a list of names ascends strictly in text order.
pub open spec fn names_ascend(names: Seq<Seq<char>>) -> bool {
    forall|a: int, b: int|
        0 <= a < b < names.len() ==> text_before(#[trigger] names[a], #[trigger] names[b])
}

/// Where `name_slot` stops, every name before it comes before `name`, and
/// the name there does not.
proof fn lemma_name_slot(names: Seq<Seq<char>>, name: Seq<char>, from: int)
    requires
        0 <= from <= names.len(),
    ensures
        from <= name_slot(names, name, from) <= names.len(),
        forall|k: int|
            from <= k < name_slot(names, name, from) ==> text_before(#[trigger] names[k], name),
        name_slot(names, name, from) < names.len() ==> !text_before(
            names[name_slot(names, name, from)],
            name,
        ),
    decreases names.len() - from,
{
    if from >= names.len() || !text_before(names[from], name) {
    } else {
        lemma_name_slot(names, name, from + 1);
    }
}

/// Putting a name into an ascending list keeps the list ascending, keeps
/// what it held, adds the name and nothing else.
proof fn lemma_with_name(names: Seq<Seq<char>>, name: Seq<char>)
    requires
        names_ascend(names),
    ensures
        names_ascend(with_name(names, name)),
        with_name(names, name).contains(name),
        forall|x: Seq<char>| names.contains(x) ==> with_name(names, name).contains(x),
        forall|x: Seq<char>|
            with_name(names, name).contains(x) ==> x == name || names.contains(x),
{
    let at = name_slot(names, name, 0);
    lemma_name_slot(names, name, 0);
    let next = with_name(names, name);
    if at < names.len() && names[at] == name {
        assert(next[at] == name);
    } else {
        assert(next == names.insert(at, name));
        assert(next.len() == names.len() + 1);
        assert(next[at] == name);
        assert forall|x: Seq<char>| names.contains(x) implies next.contains(x) by {
            let k = choose|k: int| 0 <= k < names.len() && names[k] == x;
            if k < at {
                assert(next[k] == x);
            } else {
                assert(next[k + 1] == x);
            }
        }
        assert forall|x: Seq<char>| next.contains(x) implies x == name || names.contains(x) by {
            let k = choose|k: int| 0 <= k < next.len() && next[k] == x;
            if k < at {
                assert(names[k] == x);
            } else if k > at {
                assert(names[k - 1] == x);
            }
        }
        assert forall|a: int, b: int| 0 <= a < b < next.len() implies text_before(
            #[trigger] next[a],
            #[trigger] next[b],
        ) by {
            if b < at {
                assert(next[a] == names[a] && next[b] == names[b]);
            } else if b == at {
                assert(next[a] == names[a] && next[b] == name);
            } else if a < at {
                assert(next[a] == names[a] && next[b] == names[b - 1]);
            } else if a == at {
                assert(next[a] == name && next[b] == names[b - 1]);
                assert(!text_before(names[at], name));
                assert(names[at] != name);
                lemma_text_total(names[at], name);
                if at < b - 1 {
                    assert(text_before(names[at], names[b - 1]));
                    lemma_text_transitive(name, names[at], names[b - 1]);
                }
            } else {
                assert(next[a] == names[a - 1] && next[b] == names[b - 1]);
            }
        }
    }
}

/// The POPs of the first `n` rows ascend strictly, and they are exactly the
/// names that those rows carry.
pub proof fn lemma_pop_names_upto(rows: Seq<MitigationView>, n: int)
    requires
        0 <= n <= rows.len(),
    ensures
        names_ascend(pop_names_upto(rows, n)),
        forall|i: int| 0 <= i < n ==> pop_names_upto(rows, n).contains((#[trigger] rows[i]).pop),
        forall|x: Seq<char>|
            pop_names_upto(rows, n).contains(x) ==> exists|i: int|
                0 <= i < n && (#[trigger] rows[i]).pop == x,
    decreases n,
{
    if n > 0 {
        lemma_pop_names_upto(rows, n - 1);
        let earlier = pop_names_upto(rows, n - 1);
        lemma_with_name(earlier, rows[n - 1].pop);
        let names = pop_names_upto(rows, n);
        assert forall|i: int| 0 <= i < n implies names.contains((#[trigger] rows[i]).pop) by {
            if i < n - 1 {
                assert(earlier.contains(rows[i].pop));
            }
        }
        assert forall|x: Seq<char>| names.contains(x) implies exists|i: int|
            0 <= i < n && (#[trigger] rows[i]).pop == x by {
            if x == rows[n - 1].pop {
                assert(rows[n - 1].pop == x);
            } else {
                assert(earlier.contains(x));
                let i = choose|i: int| 0 <= i < n - 1 && (#[trigger] rows[i]).pop == x;
                assert(rows[i].pop == x);
            }
        }
    }
}

/// The POPs of a table ascend strictly in text order, so none stands twice;
/// every row's POP is among them, and each of them is some row's POP.
pub proof fn lemma_pop_names(rows: Seq<MitigationView>)
    ensures
        names_ascend(pop_names(rows)),
        forall|i: int| 0 <= i < rows.len() ==> pop_names(rows).contains((#[trigger] rows[i]).pop),
        forall|x: Seq<char>|
            pop_names(rows).contains(x) ==> exists|i: int|
                0 <= i < rows.len() && (#[trigger] rows[i]).pop == x,
{
    lemma_pop_names_upto(rows, rows.len() as int);
}

/// No POP stands twice among the POPs of a table.
pub proof fn lemma_pop_names_distinct(rows: Seq<MitigationView>, a: int, b: int)
    requires
        0 <= a < pop_names(rows).len(),
        0 <= b < pop_names(rows).len(),
        a != b,
    ensures
        pop_names(rows)[a] != pop_names(rows)[b],
{
    lemma_pop_names(rows);
    let names = pop_names(rows);
    if a < b {
        assert(text_before(names[a], names[b]));
    } else {
        assert(text_before(names[b], names[a]));
    }
    lemma_text_irreflexive(names[a]);
}

/// The POPs of a table, each once, in ascending text order.
pub fn pop_names_of(rows: &Vec<Mitigation>) -> (names: Vec<String>)
    ensures
        text_views(names@) == pop_names(mitigation_views(rows@)),
{
    let ghost all = mitigation_views(rows@);
    let mut names: Vec<String> = Vec::new();
    let mut i: usize = 0;
    assert(text_views(names@) =~= pop_names_upto(all, 0));
    while i < rows.len()
        invariant
            i <= rows.len(),
            all == mitigation_views(rows@),
            text_views(names@) == pop_names_upto(all, i as int),
        decreases rows.len() - i,
    {
        let pop = rows[i].pop.as_str();
        assert(all[i as int].pop == pop@);
        let ghost earlier = text_views(names@);
        let mut at: usize = 0;
        while at < names.len() && str_lt(names[at].as_str(), pop)
            invariant
                at <= names.len(),
                earlier == text_views(names@),
                name_slot(earlier, pop@, 0) == name_slot(earlier, pop@, at as int),
            decreases names.len() - at,
        {
            assert(earlier[at as int] == names@[at as int]@);
            at = at + 1;
        }
        proof {
            if at < names.len() {
                assert(earlier[at as int] == names@[at as int]@);
            }
        }
        if at < names.len() && str_eq(names[at].as_str(), pop) {
        } else {
            names.insert(at, pop.to_owned());
            assert(text_views(names@) =~= earlier.insert(at as int, pop@));
        }
        i = i + 1;
    }
    names
}

/// Counts the rows of the given POP, if one is given, and only those whose
/// status is `Active`, if `active_only`.
pub fn tally_rows(rows: &Vec<Mitigation>, pop: Option<&str>, active_only: bool) -> (n: usize)
    ensures
        n == mitigation_views(rows@).filter(
            tally(
                match pop {
                    Some(p) => Some(p@),
                    None => None,
                },
                active_only,
            ),
        ).len(),
{
    let ghost pred = tally(
        match pop {
            Some(p) => Some(p@),
            None => None,
        },
        active_only,
    );
    let ghost all = mitigation_views(rows@);
    let mut n: usize = 0;
    let mut i: usize = 0;
    assert(all.take(0).filter(pred) =~= Seq::empty()) by {
        reveal(Seq::filter);
    }
    while i < rows.len()
        invariant
            i <= rows.len(),
            all == mitigation_views(rows@),
            pred == tally(
                match pop {
                    Some(p) => Some(p@),
                    None => None,
                },
                active_only,
            ),
            n == all.take(i as int).filter(pred).len(),
            n <= i,
        decreases rows.len() - i,
    {
        proof {
            lemma_filter_step(all, pred, i as int);
        }
        let m = &rows[i];
        let in_pop = match pop {
            Some(p) => str_eq(m.pop.as_str(), p),
            None => true,
        };
        let counted = in_pop && (!active_only || m.status == MitigationStatus::Active);
        if counted {
            n = n + 1;
        }
        i = i + 1;
    }
    assert(all.take(i as int) =~= all);
    n
}

/// The counts of every POP of a table, in ascending order of the POPs.
pub fn pop_infos_of(rows: &Vec<Mitigation>) -> (infos: Vec<PopInfo>)
    ensures
        pop_info_views(infos@) == pop_infos(mitigation_views(rows@)),
{
    let ghost all = mitigation_views(rows@);
    let names = pop_names_of(rows);
    let mut infos: Vec<PopInfo> = Vec::new();
    let mut k: usize = 0;
    while k < names.len()
        invariant
            k <= names.len(),
            all == mitigation_views(rows@),
            text_views(names@) == pop_names(all),
            pop_info_views(infos@) == pop_infos(all).subrange(0, k as int),
        decreases names.len() - k,
    {
        let name = names[k].as_str();
        assert(pop_names(all)[k as int] == name@);
        let active = tally_rows(rows, Some(name), true);
        let total = tally_rows(rows, Some(name), false);
        let ghost earlier = pop_info_views(infos@);
        let info = PopInfo {
            pop: name.to_owned(),
            active_mitigations: #[verifier::truncate]
            (active as u32),
            total_mitigations: #[verifier::truncate]
            (total as u32),
        };
        assert(info@ == pop_info_of(all, name@));
        infos.push(info);
        assert(pop_info_views(infos@) =~= earlier.push(pop_info_of(all, name@)));
        assert(pop_info_views(infos@) =~= pop_infos(all).subrange(0, k + 1));
        k = k + 1;
    }
    assert(pop_infos(all).subrange(0, k as int) =~= pop_infos(all));
    infos
}

/// The statistics of a table of mitigations and a number of events.
pub fn global_stats_of(rows: &Vec<Mitigation>, events: usize) -> (stats: GlobalStats)
    ensures
        stats@ == global_stats(mitigation_views(rows@), events as nat),
{
    let ghost all = mitigation_views(rows@);
    let ghost lines = pop_names(all).map_values(|name: Seq<char>| pop_stats_of(all, name));
    let names = pop_names_of(rows);
    let mut pops: Vec<PopStats> = Vec::new();
    let mut k: usize = 0;
    while k < names.len()
        invariant
            k <= names.len(),
            all == mitigation_views(rows@),
            text_views(names@) == pop_names(all),
            lines == pop_names(all).map_values(|name: Seq<char>| pop_stats_of(all, name)),
            pop_stats_views(pops@) == lines.subrange(0, k as int),
        decreases names.len() - k,
    {
        let name = names[k].as_str();
        assert(pop_names(all)[k as int] == name@);
        let active = tally_rows(rows, Some(name), true);
        let total = tally_rows(rows, Some(name), false);
        let ghost earlier = pop_stats_views(pops@);
        let line = PopStats {
            pop: name.to_owned(),
            active: #[verifier::truncate]
            (active as u32),
            total: #[verifier::truncate]
            (total as u32),
        };
        assert(line@ == pop_stats_of(all, name@));
        pops.push(line);
        assert(pop_stats_views(pops@) =~= earlier.push(pop_stats_of(all, name@)));
        assert(pop_stats_views(pops@) =~= lines.subrange(0, k + 1));
        k = k + 1;
    }
    assert(lines.subrange(0, k as int) =~= lines);
    let total_active = tally_rows(rows, None, true);
    GlobalStats {
        total_active: #[verifier::truncate]
        (total_active as u32),
        total_mitigations: #[verifier::truncate]
        (rows.len() as u32),
        total_events: #[verifier::truncate]
        (events as u32),
        pops,
    }
}

} // verus!

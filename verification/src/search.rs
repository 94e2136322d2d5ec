//! Finding the first row of a table that a predicate holds of.

use vstd::prelude::*;

verus! {

/// The first position at or after `from` whose row satisfies `pred`; the
/// length of the table if there is none.
pub open spec fn first_where<T>(rows: Seq<T>, pred: spec_fn(T) -> bool, from: int) -> int
    decreases rows.len() - from,
{
    if from >= rows.len() || pred(rows[from]) {
        from
    } else {
        first_where(rows, pred, from + 1)
    }
}

/// The position of the first row that satisfies `pred`; the length of the
/// table if there is none.
pub open spec fn position<T>(rows: Seq<T>, pred: spec_fn(T) -> bool) -> int {
    first_where(rows, pred, 0)
}

/// The first row that satisfies `pred`, if there is one.
pub open spec fn lookup<T>(rows: Seq<T>, pred: spec_fn(T) -> bool) -> Option<T> {
    if position(rows, pred) < rows.len() {
        Some(rows[position(rows, pred)])
    } else {
        None
    }
}

/// Whether some row satisfies `pred`.
pub open spec fn any<T>(rows: Seq<T>, pred: spec_fn(T) -> bool) -> bool {
    exists|i: int| 0 <= i < rows.len() && pred(#[trigger] rows[i])
}

/// A position that no earlier row but this one satisfies `pred` at is the
/// first such position.
pub proof fn lemma_first_where_is<T>(rows: Seq<T>, pred: spec_fn(T) -> bool, from: int, at: int)
    requires
        0 <= from <= at <= rows.len(),
        forall|k: int| from <= k < at ==> !pred(#[trigger] rows[k]),
        at < rows.len() ==> pred(rows[at]),
    ensures
        first_where(rows, pred, from) == at,
    decreases at - from,
{
    if from < at {
        lemma_first_where_is(rows, pred, from + 1, at);
    }
}

/// The first position lies within the table or at its end; the row there
/// satisfies `pred`, and no row before it does.
pub proof fn lemma_first_where<T>(rows: Seq<T>, pred: spec_fn(T) -> bool, from: int)
    requires
        0 <= from <= rows.len(),
    ensures
        from <= first_where(rows, pred, from) <= rows.len(),
        first_where(rows, pred, from) < rows.len() ==> pred(rows[first_where(rows, pred, from)]),
        forall|k: int| from <= k < first_where(rows, pred, from) ==> !pred(#[trigger] rows[k]),
    decreases rows.len() - from,
{
    if from >= rows.len() || pred(rows[from]) {
    } else {
        lemma_first_where(rows, pred, from + 1);
    }
}

/// A row is found exactly when some row satisfies the predicate.
pub proof fn lemma_lookup_iff_any<T>(rows: Seq<T>, pred: spec_fn(T) -> bool)
    ensures
        lookup(rows, pred) is Some <==> any(rows, pred),
        lookup(rows, pred) is Some ==> pred(lookup(rows, pred)->0),
{
    lemma_first_where(rows, pred, 0);
    if any(rows, pred) {
        let i = choose|i: int| 0 <= i < rows.len() && pred(#[trigger] rows[i]);
        if position(rows, pred) >= rows.len() {
            assert(!pred(rows[i]));
        }
    }
}

/// Filtering one row more either appends the row or changes nothing.
pub proof fn lemma_filter_step<T>(rows: Seq<T>, pred: spec_fn(T) -> bool, i: int)
    requires
        0 <= i < rows.len(),
    ensures
        rows.take(i + 1).filter(pred) == if pred(rows[i]) {
            rows.take(i).filter(pred).push(rows[i])
        } else {
            rows.take(i).filter(pred)
        },
{
    reveal(Seq::filter);
    assert(rows.take(i + 1).drop_last() =~= rows.take(i));
}

} // verus!

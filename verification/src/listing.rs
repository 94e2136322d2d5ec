//! The order in which rows are listed: newest first.
//!
//! A table is a sequence of rows. Each row has a key: whether a query selects
//! it, the instant it is ordered by, and its identifier. A listing is the
//! sequence of the positions of the selected rows, newest first; rows of the
//! same instant come by ascending identifier, and rows that agree in both by
//! their position in the table. There is exactly one such sequence.

use vstd::prelude::*;

verus! {

/// What a listing needs to know of a row.
#[derive(Clone, Copy, Debug, PartialEq, Eq, Structural)]
pub struct RowKey {
    /// Whether the query selects the row.
    pub selected: bool,
    /// The instant the row is ordered by.
    pub at: i64,
    /// The row's identifier.
    pub id: u128,
}

/// Whether the row at position `i` is listed before the row at position `j`.
pub open spec fn comes_before(keys: Seq<RowKey>, i: int, j: int) -> bool {
    let a = keys[i];
    let b = keys[j];
    a.at > b.at || (a.at == b.at && (a.id < b.id || (a.id == b.id && i < j)))
}

/// Whether `order` lists exactly the selected rows among the first `n`, each
/// once, in listing order.
pub open spec fn is_listing_upto(keys: Seq<RowKey>, n: int, order: Seq<int>) -> bool {
    &&& forall|k: int|
        0 <= k < order.len() ==> 0 <= #[trigger] order[k] < n && keys[order[k]].selected
    &&& forall|i: int| 0 <= i < n && (#[trigger] keys[i]).selected ==> order.contains(i)
    &&& forall|a: int, b: int|
        0 <= a < b < order.len() ==> comes_before(keys, #[trigger] order[a], #[trigger] order[b])
}

/// Whether `order` lists exactly the selected rows, each once, in listing
/// order.
pub open spec fn is_listing(keys: Seq<RowKey>, order: Seq<int>) -> bool {
    is_listing_upto(keys, keys.len() as int, order)
}

/// The first position at or after `from` in `order` whose row is listed after
/// row `i`; the length of `order` if there is none.
pub open spec fn slot(keys: Seq<RowKey>, order: Seq<int>, i: int, from: int) -> int
    decreases order.len() - from,
{
    if from >= order.len() || comes_before(keys, i, order[from]) {
        from
    } else {
        slot(keys, order, i, from + 1)
    }
}

/// The listing of the first `n` rows.
pub open spec fn listing_upto(keys: Seq<RowKey>, n: int) -> Seq<int>
    decreases n,
{
    if n <= 0 {
        Seq::empty()
    } else {
        let earlier = listing_upto(keys, n - 1);
        if keys[n - 1].selected {
            earlier.insert(slot(keys, earlier, n - 1, 0), n - 1)
        } else {
            earlier
        }
    }
}

/// The listing of a table: the positions of the selected rows, newest first.
pub open spec fn listing(keys: Seq<RowKey>) -> Seq<int> {
    listing_upto(keys, keys.len() as int)
}

/// The part of a sequence that a query with `limit` and `offset` returns.
pub open spec fn page<T>(rows: Seq<T>, limit: u32, offset: u32) -> Seq<T> {
    let start = if offset <= rows.len() {
        offset as int
    } else {
        rows.len() as int
    };
    let end = if offset + limit <= rows.len() {
        offset + limit
    } else {
        rows.len() as int
    };
    rows.subrange(start, end)
}

/// The positions held by a vector of positions.
pub open spec fn positions(order: Seq<usize>) -> Seq<int> {
    order.map_values(|i: usize| i as int)
}

/// Where `slot` stops, nothing before it is listed after row `i`, and what
/// stands there is.
proof fn lemma_slot(keys: Seq<RowKey>, order: Seq<int>, i: int, from: int)
    requires
        0 <= from <= order.len(),
    ensures
        from <= slot(keys, order, i, from) <= order.len(),
        forall|k: int|
            from <= k < slot(keys, order, i, from) ==> !comes_before(keys, i, #[trigger] order[k]),
        slot(keys, order, i, from) < order.len() ==> comes_before(
            keys,
            i,
            order[slot(keys, order, i, from)],
        ),
    decreases order.len() - from,
{
    if from >= order.len() || comes_before(keys, i, order[from]) {
    } else {
        lemma_slot(keys, order, i, from + 1);
    }
}

/// Putting row `n` into its slot makes a listing of the first `n` rows into
/// one of the first `n + 1`.
proof fn lemma_insert_keeps_listing(keys: Seq<RowKey>, n: int, earlier: Seq<int>)
    requires
        0 <= n < keys.len(),
        keys[n].selected,
        is_listing_upto(keys, n, earlier),
    ensures
        is_listing_upto(keys, n + 1, earlier.insert(slot(keys, earlier, n, 0), n)),
{
    let p = slot(keys, earlier, n, 0);
    lemma_slot(keys, earlier, n, 0);
    let next = earlier.insert(p, n);
    assert(next.len() == earlier.len() + 1);
    assert forall|k: int| 0 <= k < next.len() implies 0 <= #[trigger] next[k] < n + 1
        && keys[next[k]].selected by {
        if k < p {
            assert(next[k] == earlier[k]);
        } else if k == p {
            assert(next[k] == n);
        } else {
            assert(next[k] == earlier[k - 1]);
        }
    }
    assert forall|i: int| 0 <= i < n + 1 && (#[trigger] keys[i]).selected implies next.contains(
        i,
    ) by {
        if i == n {
            assert(next[p] == n);
        } else {
            assert(earlier.contains(i));
            let k = choose|k: int| 0 <= k < earlier.len() && earlier[k] == i;
            if k < p {
                assert(next[k] == i);
            } else {
                assert(next[k + 1] == i);
            }
        }
    }
    assert forall|a: int, b: int| 0 <= a < b < next.len() implies comes_before(
        keys,
        #[trigger] next[a],
        #[trigger] next[b],
    ) by {
        if b < p {
            assert(next[a] == earlier[a] && next[b] == earlier[b]);
        } else if b == p {
            assert(next[a] == earlier[a] && next[b] == n);
            assert(!comes_before(keys, n, earlier[a]));
            assert(earlier[a] < n);
        } else if a < p {
            assert(next[a] == earlier[a] && next[b] == earlier[b - 1]);
            if a < b - 1 {
            } else {
                assert(false);
            }
        } else if a == p {
            assert(next[a] == n && next[b] == earlier[b - 1]);
            assert(comes_before(keys, n, earlier[p]));
            if p < b - 1 {
                assert(comes_before(keys, earlier[p], earlier[b - 1]));
            }
        } else {
            assert(next[a] == earlier[a - 1] && next[b] == earlier[b - 1]);
        }
    }
}

/// The listing of the first `n` rows lists exactly the selected rows among
/// them, in listing order.
pub proof fn lemma_listing_upto(keys: Seq<RowKey>, n: int)
    requires
        0 <= n <= keys.len(),
    ensures
        is_listing_upto(keys, n, listing_upto(keys, n)),
    decreases n,
{
    if n > 0 {
        lemma_listing_upto(keys, n - 1);
        let earlier = listing_upto(keys, n - 1);
        if keys[n - 1].selected {
            lemma_insert_keeps_listing(keys, n - 1, earlier);
        } else {
            assert forall|i: int| 0 <= i < n && (#[trigger] keys[i]).selected implies earlier.contains(
                i,
            ) by {}
        }
    }
}

/// The listing of a table lists exactly its selected rows, each once, newest
/// first.
pub proof fn lemma_listing_is_listing(keys: Seq<RowKey>)
    ensures
        is_listing(keys, listing(keys)),
{
    lemma_listing_upto(keys, keys.len() as int);
}

/// Two listings of the same table agree on their first `k` positions.
proof fn lemma_listings_agree(keys: Seq<RowKey>, x: Seq<int>, y: Seq<int>, k: int)
    requires
        is_listing(keys, x),
        is_listing(keys, y),
        0 <= k <= x.len(),
        k <= y.len(),
    ensures
        forall|j: int| 0 <= j < k ==> x[j] == y[j],
    decreases k,
{
    if k > 0 {
        lemma_listings_agree(keys, x, y, k - 1);
        let n = k - 1;
        assert(keys[x[n]].selected);
        assert(y.contains(x[n]));
        let p = choose|p: int| 0 <= p < y.len() && y[p] == x[n];
        assert(keys[y[n]].selected);
        assert(x.contains(y[n]));
        let q = choose|q: int| 0 <= q < x.len() && x[q] == y[n];
        if p < n {
            assert(x[p] == y[p]);
            assert(comes_before(keys, x[p], x[n]));
        }
        if q < n {
            assert(x[q] == y[q]);
            assert(comes_before(keys, y[q], y[n]));
        }
        if p > n {
            assert(comes_before(keys, y[n], y[p]));
            if q > n {
                assert(comes_before(keys, x[n], x[q]));
            }
        }
    }
}

/// A table has one listing only.
pub proof fn lemma_listing_unique(keys: Seq<RowKey>, x: Seq<int>, y: Seq<int>)
    requires
        is_listing(keys, x),
        is_listing(keys, y),
    ensures
        x == y,
{
    if x.len() < y.len() {
        lemma_listings_agree(keys, x, y, x.len() as int);
        let n = x.len() as int;
        assert(keys[y[n]].selected);
        assert(x.contains(y[n]));
        let q = choose|q: int| 0 <= q < x.len() && x[q] == y[n];
        assert(x[q] == y[q]);
        assert(comes_before(keys, y[q], y[n]));
        assert(false);
    } else if y.len() < x.len() {
        lemma_listings_agree(keys, x, y, y.len() as int);
        let n = y.len() as int;
        assert(keys[x[n]].selected);
        assert(y.contains(x[n]));
        let p = choose|p: int| 0 <= p < y.len() && y[p] == x[n];
        assert(x[p] == y[p]);
        assert(comes_before(keys, x[p], x[n]));
        assert(false);
    } else {
        lemma_listings_agree(keys, x, y, x.len() as int);
        assert(x =~= y);
    }
}

/// Any sequence that lists exactly the selected rows in listing order is the
/// listing.
pub proof fn lemma_listing_characterised(keys: Seq<RowKey>, order: Seq<int>)
    requires
        is_listing(keys, order),
    ensures
        order == listing(keys),
{
    lemma_listing_is_listing(keys);
    lemma_listing_unique(keys, order, listing(keys));
}

/// Tells whether the row at position `i` is listed before the row at
/// position `j`.
pub fn key_before(keys: &Vec<RowKey>, i: usize, j: usize) -> (before: bool)
    requires
        i < keys.len(),
        j < keys.len(),
    ensures
        before == comes_before(keys@, i as int, j as int),
{
    let a = keys[i];
    let b = keys[j];
    a.at > b.at || (a.at == b.at && (a.id < b.id || (a.id == b.id && i < j)))
}

/// Computes the listing of a table from the keys of its rows.
pub fn listing_order(keys: &Vec<RowKey>) -> (order: Vec<usize>)
    ensures
        positions(order@) == listing(keys@),
        is_listing(keys@, positions(order@)),
{
    let mut order: Vec<usize> = Vec::new();
    let mut i: usize = 0;
    assert(positions(order@) =~= listing_upto(keys@, 0));
    while i < keys.len()
        invariant
            i <= keys.len(),
            positions(order@) == listing_upto(keys@, i as int),
        decreases keys.len() - i,
    {
        proof {
            lemma_listing_upto(keys@, i as int);
        }
        if keys[i].selected {
            let ghost earlier = positions(order@);
            let mut p: usize = 0;
            while p < order.len() && !key_before(keys, i, order[p])
                invariant
                    i < keys.len(),
                    p <= order.len(),
                    earlier == positions(order@),
                    is_listing_upto(keys@, i as int, earlier),
                    slot(keys@, earlier, i as int, 0) == slot(keys@, earlier, i as int, p as int),
                decreases order.len() - p,
            {
                assert(earlier[p as int] == order@[p as int]);
                p = p + 1;
            }
            proof {
                if p < order.len() {
                    assert(earlier[p as int] == order@[p as int]);
                }
            }
            order.insert(p, i);
            assert(positions(order@) =~= earlier.insert(p as int, i as int));
        }
        i = i + 1;
    }
    proof {
        lemma_listing_is_listing(keys@);
    }
    order
}

} // verus!

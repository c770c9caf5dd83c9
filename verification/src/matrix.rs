//! The value matrix and what it means to split a trade over it.
//!
//! A matrix holds one row per venue. Cell `k - 1` of a row is the output the
//! venue quotes for `k` quanta of input, for `k` from one up to the step
//! count; zero quanta always yield zero and are not stored. A cell that holds
//! [`MIN_VALUE`] marks a quantity the venue cannot serve.

use vstd::prelude::*;

verus! {

/// The sentinel stored in place of a quote that the venue refused.
pub const MIN_VALUE: i128 = -1_000_000_000_000_000_000_000_000_000_000_000_000i128;

/// A cell is either the sentinel or an output amount.
pub open spec fn valid_cell(c: i128) -> bool {
    c == MIN_VALUE || 0 <= c <= u64::MAX
}

/// Every venue quotes each of the `steps` levels, and there is a venue.
pub open spec fn well_formed(m: Seq<Seq<i128>>, steps: int) -> bool {
    &&& m.len() >= 1
    &&& forall|v: int| 0 <= v < m.len() ==> (#[trigger] m[v]).len() >= steps
    &&& forall|v: int, k: int|
        0 <= v < m.len() && 0 <= k < steps ==> valid_cell(#[trigger] m[v][k])
}

/// Output that venue `v` quotes for `k` quanta.
pub open spec fn quoted(m: Seq<Seq<i128>>, v: int, k: int) -> int {
    if k <= 0 {
        0
    } else {
        m[v][k - 1] as int
    }
}

/// Whether venue `v` can serve `k` quanta.
pub open spec fn reachable(m: Seq<Seq<i128>>, v: int, k: int) -> bool {
    k <= 0 || m[v][k - 1] != MIN_VALUE
}

/// Sum of the quanta that a split hands out.
pub open spec fn total(a: Seq<int>) -> int
    decreases a.len(),
{
    if a.len() == 0 {
        0
    } else {
        total(a.drop_last()) + a.last()
    }
}

/// Aggregate output of a split: venue `v` receives `a[v]` quanta.
pub open spec fn split_value(m: Seq<Seq<i128>>, a: Seq<int>) -> int
    decreases a.len(),
{
    if a.len() == 0 {
        0
    } else {
        split_value(m, a.drop_last()) + quoted(m, a.len() - 1, a.last())
    }
}

/// `a` hands exactly `j` quanta to the first `a.len()` venues, each of which
/// can serve its share.
pub open spec fn is_split(m: Seq<Seq<i128>>, a: Seq<int>, j: int) -> bool {
    &&& forall|v: int| 0 <= v < a.len() ==> 0 <= #[trigger] a[v] && reachable(m, v, a[v])
    &&& total(a) == j
}

/// `a` hands all `steps` quanta to the venues of `m`.
pub open spec fn is_route(m: Seq<Seq<i128>>, steps: int, a: Seq<int>) -> bool {
    a.len() == m.len() && is_split(m, a, steps)
}

/// Some split of all `steps` quanta avoids every refused quote.
pub open spec fn viable(m: Seq<Seq<i128>>, steps: int) -> bool {
    exists|a: Seq<int>| is_route(m, steps, a)
}

/// The order in which equally good splits are kept: `a` is `b`, or at the
/// last venue where they differ `a` gives less.
pub open spec fn prefers(a: Seq<int>, b: Seq<int>) -> bool {
    a == b || exists|v: int|
        0 <= v < a.len() && #[trigger] a[v] < b[v] && forall|w: int|
            v < w < a.len() ==> #[trigger] a[w] == b[w]
}

/// `a` is the split that the optimizer owes for `m`, and `value` its output:
/// no route yields more, and among the routes that yield as much `a` is the
/// preferred one.
pub open spec fn is_optimum(m: Seq<Seq<i128>>, steps: int, a: Seq<int>, value: int) -> bool {
    &&& is_route(m, steps, a)
    &&& value == split_value(m, a)
    &&& forall|b: Seq<int>| #[trigger]
        is_route(m, steps, b) ==> split_value(m, b) <= value && (split_value(m, b) == value
            ==> prefers(a, b))
}

/// The quanta of a split are bounded by what it hands out in all.
pub proof fn lemma_total_bounds(a: Seq<int>, v: int)
    requires
        forall|w: int| 0 <= w < a.len() ==> 0 <= #[trigger] a[w],
        0 <= v < a.len(),
    ensures
        0 <= a[v] <= total(a),
        0 <= total(a.drop_last()) <= total(a),
    decreases a.len(),
{
    let front = a.drop_last();
    assert(a.last() == a[a.len() - 1]);
    assert(total(a) == total(front) + a.last());
    if front.len() == 0 {
        assert(total(front) == 0);
    } else {
        assert forall|w: int| 0 <= w < front.len() implies 0 <= #[trigger] front[w] by {
            assert(front[w] == a[w]);
        }
        lemma_total_bounds(front, 0);
        if v < front.len() {
            lemma_total_bounds(front, v);
            assert(front[v] == a[v]);
        }
    }
}

/// The part of a split that concerns all venues but the last is a split of
/// what the last venue leaves.
pub proof fn lemma_split_front(m: Seq<Seq<i128>>, a: Seq<int>, j: int)
    requires
        a.len() >= 1,
        is_split(m, a, j),
    ensures
        is_split(m, a.drop_last(), j - a.last()),
        0 <= a.last() <= j,
        reachable(m, a.len() - 1, a.last()),
        split_value(m, a) == split_value(m, a.drop_last()) + quoted(m, a.len() - 1, a.last()),
{
    let front = a.drop_last();
    assert forall|v: int| 0 <= v < front.len() implies 0 <= #[trigger] front[v] && reachable(
        m,
        v,
        front[v],
    ) by {
        assert(front[v] == a[v]);
    }
    lemma_total_bounds(a, a.len() - 1);
    assert(a.last() == a[a.len() - 1]);
}

/// Adding one venue with a share it can serve extends a split.
pub proof fn lemma_split_push(m: Seq<Seq<i128>>, a: Seq<int>, j: int, k: int)
    requires
        is_split(m, a, j),
        0 <= k,
        reachable(m, a.len() as int, k),
    ensures
        is_split(m, a.push(k), j + k),
        split_value(m, a.push(k)) == split_value(m, a) + quoted(m, a.len() as int, k),
{
    let b = a.push(k);
    assert(b.drop_last() =~= a);
    assert(b.last() == k);
    assert forall|v: int| 0 <= v < b.len() implies 0 <= #[trigger] b[v] && reachable(m, v, b[v]) by {
        if v < a.len() {
            assert(b[v] == a[v]);
        }
    }
}

} // verus!

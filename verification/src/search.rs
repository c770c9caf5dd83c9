//! The recurrence that the optimizer evaluates, and the proof that it finds
//! the optimum of [`crate::matrix::is_optimum`].
//!
//! `scan(m, n, j, k)` is the best output of the first `n` venues on exactly
//! `j` quanta when the last of them takes at most `k`; `None` stands for "no
//! split avoids the refused quotes".

use vstd::prelude::*;
use crate::matrix::{
    MIN_VALUE, is_optimum, is_route, is_split, lemma_split_front, lemma_split_push, prefers,
    quoted, reachable, split_value, total, valid_cell, viable, well_formed,
};

verus! {

/// The better of the best so far and a candidate; the candidate has to be
/// strictly better to replace it.
pub open spec fn better(prev: Option<int>, cand: Option<int>) -> Option<int> {
    if takes(prev, cand) {
        cand
    } else {
        prev
    }
}

/// Whether a candidate replaces the best so far.
pub open spec fn takes(prev: Option<int>, cand: Option<int>) -> bool {
    match (prev, cand) {
        (_, None) => false,
        (None, Some(_)) => true,
        (Some(p), Some(c)) => c > p,
    }
}

/// Output of a split of the earlier venues worth `below`, extended by `k`
/// quanta for venue `v`.
pub open spec fn extend(below: Option<int>, m: Seq<Seq<i128>>, v: int, k: int) -> Option<int> {
    match below {
        Some(x) => if reachable(m, v, k) {
            Some(x + quoted(m, v, k))
        } else {
            None
        },
        None => None,
    }
}

/// Best output of the first `n` venues on exactly `j` quanta when the last
/// of them takes at most `k`: for one venue its own quote, for more the
/// better of the scan up to `k - 1` and of what `k` quanta for the last
/// venue add to the best of the others.
pub open spec fn scan(m: Seq<Seq<i128>>, n: nat, j: int, k: int) -> Option<int>
    decreases n, k + 1,
{
    if n <= 1 {
        if reachable(m, 0, j) {
            Some(quoted(m, 0, j))
        } else {
            None
        }
    } else if k < 0 {
        None
    } else {
        better(
            scan(m, n, j, k - 1),
            extend(scan(m, (n - 1) as nat, j - k, j - k), m, n - 1, k),
        )
    }
}

/// Best output of the first `n` venues on exactly `j` quanta.
pub open spec fn best(m: Seq<Seq<i128>>, n: nat, j: int) -> Option<int> {
    scan(m, n, j, j)
}

/// Output when the last of `n` venues takes exactly `k` of `j` quanta and the
/// earlier ones do their best with the rest.
pub open spec fn candidate(m: Seq<Seq<i128>>, n: nat, j: int, k: int) -> Option<int> {
    extend(best(m, (n - 1) as nat, j - k), m, n - 1, k)
}

/// The share of the last of `n` venues that the scan up to `k` settles on.
pub open spec fn cut(m: Seq<Seq<i128>>, n: nat, j: int, k: int) -> int
    decreases k,
{
    if k <= 0 {
        0
    } else if takes(scan(m, n, j, k - 1), candidate(m, n, j, k)) {
        k
    } else {
        cut(m, n, j, k - 1)
    }
}

/// The share of the last of `n` venues in the chosen split of `j` quanta.
pub open spec fn chosen(m: Seq<Seq<i128>>, n: nat, j: int) -> int {
    if n <= 1 {
        j
    } else {
        cut(m, n, j, j)
    }
}

/// The chosen split of `j` quanta over the first `n` venues.
pub open spec fn choice(m: Seq<Seq<i128>>, n: nat, j: int) -> Seq<int>
    decreases n,
{
    if n == 0 {
        Seq::empty()
    } else {
        choice(m, (n - 1) as nat, j - chosen(m, n, j)).push(chosen(m, n, j))
    }
}

/// The best output is an amount, and no venue adds more than one quote per
/// quantum.
pub proof fn lemma_scan_bounds(m: Seq<Seq<i128>>, steps: int, n: nat, j: int, k: int)
    requires
        well_formed(m, steps),
        1 <= n <= m.len(),
        0 <= j <= steps,
        k <= j,
    ensures
        scan(m, n, j, k) matches Some(x) ==> 0 <= x <= j * u64::MAX,
    decreases n, k + 1,
{
    if n <= 1 {
        if j > 0 {
            assert(valid_cell(m[0][j - 1]));
        }
    } else if k >= 0 {
        lemma_scan_bounds(m, steps, n, j, k - 1);
        lemma_scan_bounds(m, steps, (n - 1) as nat, j - k, j - k);
        if k > 0 {
            assert(valid_cell(m[n - 1][k - 1]));
        }
    }
}

/// The scan up to `k` is at least as good as any split whose last share is
/// at most `k`.
pub proof fn lemma_scan_covers(m: Seq<Seq<i128>>, n: nat, j: int, k: int, b: Seq<int>)
    requires
        n >= 1,
        b.len() == n,
        is_split(m, b, j),
        n >= 2 ==> b.last() <= k,
    ensures
        scan(m, n, j, k) matches Some(x) && split_value(m, b) <= x,
    decreases n, k + 1,
{
    lemma_split_front(m, b, j);
    let front = b.drop_last();
    if n <= 1 {
        assert(front.len() == 0);
        assert(total(front) == 0);
        assert(split_value(m, front) == 0);
    } else {
        if b.last() == k {
            lemma_best_covers(m, (n - 1) as nat, j - k, front);
        } else {
            lemma_scan_covers(m, n, j, k - 1, b);
        }
    }
}

/// The best output is at least that of any split.
pub proof fn lemma_best_covers(m: Seq<Seq<i128>>, n: nat, j: int, b: Seq<int>)
    requires
        n >= 1,
        b.len() == n,
        is_split(m, b, j),
    ensures
        best(m, n, j) matches Some(x) && split_value(m, b) <= x,
    decreases n, j + 2,
{
    lemma_split_front(m, b, j);
    lemma_scan_covers(m, n, j, j, b);
}

/// What the scan up to `k` has settled on: the first share that reaches the
/// best output.
pub proof fn lemma_cut_wins(m: Seq<Seq<i128>>, n: nat, j: int, k: int)
    requires
        n >= 2,
        0 <= k,
    ensures
        0 <= cut(m, n, j, k) <= k,
        scan(m, n, j, k) is None ==> forall|i: int|
            0 <= i <= k ==> #[trigger] candidate(m, n, j, i) is None,
        scan(m, n, j, k) matches Some(x) ==> {
            &&& candidate(m, n, j, cut(m, n, j, k)) == Some(x)
            &&& forall|i: int|
                0 <= i < cut(m, n, j, k) ==> (#[trigger] candidate(m, n, j, i) matches Some(y)
                    ==> y < x)
            &&& forall|i: int|
                0 <= i <= k ==> (#[trigger] candidate(m, n, j, i) matches Some(y) ==> y <= x)
        },
    decreases k,
{
    if k == 0 {
        assert(scan(m, n, j, -1) is None);
    } else {
        lemma_cut_wins(m, n, j, k - 1);
    }
}

/// The chosen split hands out exactly `j` quanta and yields the best output.
pub proof fn lemma_choice_achieves(m: Seq<Seq<i128>>, n: nat, j: int)
    requires
        n >= 1,
        0 <= j,
        best(m, n, j) is Some,
    ensures
        choice(m, n, j).len() == n,
        is_split(m, choice(m, n, j), j),
        Some(split_value(m, choice(m, n, j))) == best(m, n, j),
    decreases n,
{
    let none: Seq<int> = Seq::empty();
    if n <= 1 {
        assert(choice(m, 0, 0) == none);
        assert(choice(m, n, j) == none.push(j));
        assert(is_split(m, none, 0));
        lemma_split_push(m, none, 0, j);
    } else {
        lemma_cut_wins(m, n, j, j);
        let c = cut(m, n, j, j);
        assert(candidate(m, n, j, c) is Some);
        lemma_choice_achieves(m, (n - 1) as nat, j - c);
        lemma_split_push(m, choice(m, (n - 1) as nat, j - c), j - c, c);
    }
}

/// Among the splits that yield the best output, the chosen one is preferred.
pub proof fn lemma_choice_preferred(m: Seq<Seq<i128>>, n: nat, j: int, b: Seq<int>)
    requires
        n >= 1,
        0 <= j,
        b.len() == n,
        is_split(m, b, j),
        best(m, n, j) == Some(split_value(m, b)),
    ensures
        prefers(choice(m, n, j), b),
    decreases n,
{
    let a = choice(m, n, j);
    lemma_choice_achieves(m, n, j);
    lemma_split_front(m, b, j);
    let front = b.drop_last();
    let kb = b.last();
    if n <= 1 {
        assert(total(front) == 0);
        assert(a =~= b);
    } else {
        let c = cut(m, n, j, j);
        lemma_cut_wins(m, n, j, j);
        lemma_best_covers(m, (n - 1) as nat, j - kb, front);
        assert(candidate(m, n, j, kb) is Some);
        assert(c <= kb);
        let a_front = choice(m, (n - 1) as nat, j - c);
        assert(a == a_front.push(c));
        lemma_choice_achieves(m, (n - 1) as nat, j - c);
        if c < kb {
            assert(a[n - 1] < b[n - 1]);
        } else {
            lemma_choice_preferred(m, (n - 1) as nat, j - c, front);
            if a_front == front {
                assert(a =~= b);
            } else {
                let v = choose|v: int|
                    0 <= v < a_front.len() && #[trigger] a_front[v] < front[v] && forall|w: int|
                        v < w < a_front.len() ==> #[trigger] a_front[w] == front[w];
                assert(a[v] < b[v]);
                assert forall|w: int| v < w < a.len() implies #[trigger] a[w] == b[w] by {
                    if w < n - 1 {
                        assert(a_front[w] == front[w]);
                    }
                }
            }
        }
    }
}

/// The recurrence decides whether a route exists, and its chosen split is the
/// optimum.
pub proof fn lemma_search_is_optimal(m: Seq<Seq<i128>>, steps: int)
    requires
        m.len() >= 1,
        0 <= steps,
    ensures
        viable(m, steps) <==> best(m, m.len(), steps) is Some,
        best(m, m.len(), steps) matches Some(x) ==> is_optimum(
            m,
            steps,
            choice(m, m.len(), steps),
            x,
        ),
{
    let n = m.len();
    if viable(m, steps) {
        let b = choose|b: Seq<int>| is_route(m, steps, b);
        lemma_best_covers(m, n, steps, b);
    }
    if best(m, n, steps) is Some {
        let x = best(m, n, steps).unwrap();
        let a = choice(m, n, steps);
        lemma_choice_achieves(m, n, steps);
        assert(is_route(m, steps, a));
        assert forall|b: Seq<int>| #[trigger] is_route(m, steps, b) implies split_value(m, b) <= x
            && (split_value(m, b) == x ==> prefers(a, b)) by {
            lemma_best_covers(m, n, steps, b);
            if split_value(m, b) == x {
                lemma_choice_preferred(m, n, steps, b);
            }
        }
    }
}

} // verus!

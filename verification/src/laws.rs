//! What holds of every optimum, whatever the matrix.

use vstd::prelude::*;
use vstd::arithmetic::div_mod::lemma_div_multiples_vanish_quotient;
use crate::matrix::{
    MIN_VALUE, is_optimum, is_route, is_split, lemma_split_front, lemma_split_push,
    lemma_total_bounds, prefers, quoted, reachable, split_value, total, valid_cell, viable,
    well_formed,
};
use crate::quantize::level;

verus! {

/// A matrix has one optimum at most: the contract of the optimizer leaves
/// no choice of split or of output.
pub proof fn lemma_optimum_is_unique(
    m: Seq<Seq<i128>>,
    steps: int,
    a: Seq<int>,
    value: int,
    b: Seq<int>,
    other: int,
)
    requires
        is_optimum(m, steps, a, value),
        is_optimum(m, steps, b, other),
    ensures
        a == b,
        value == other,
{
    assert(is_route(m, steps, a) && is_route(m, steps, b));
    assert(prefers(a, b) && prefers(b, a));
    if a != b {
        let v = choose|v: int|
            0 <= v < a.len() && #[trigger] a[v] < b[v] && forall|w: int|
                v < w < a.len() ==> #[trigger] a[w] == b[w];
        let u = choose|u: int|
            0 <= u < b.len() && #[trigger] b[u] < a[u] && forall|w: int|
                u < w < b.len() ==> #[trigger] b[w] == a[w];
        if u < v {
            assert(b[v] == a[v]);
        } else if v < u {
            assert(a[u] == b[u]);
        }
    }
}

/// The split that hands all `j` quanta to venue `d` of `n`.
pub open spec fn all_to(n: nat, d: int, j: int) -> Seq<int> {
    Seq::new(
        n,
        |v: int|
            if v == d {
                j
            } else {
                0
            },
    )
}

/// A split that hands nothing to anyone yields nothing.
pub proof fn lemma_idle_split(m: Seq<Seq<i128>>, n: nat)
    ensures
        is_split(m, all_to(n, -1, 0), 0),
        split_value(m, all_to(n, -1, 0)) == 0,
    decreases n,
{
    let a = all_to(n, -1, 0);
    if n > 0 {
        lemma_idle_split(m, (n - 1) as nat);
        assert(a.drop_last() =~= all_to((n - 1) as nat, -1, 0));
    }
}

/// Handing everything to one venue is a split as soon as that venue can
/// serve it, and yields what the venue quotes.
pub proof fn lemma_all_to_one(m: Seq<Seq<i128>>, n: nat, d: int, j: int)
    requires
        0 <= d < n,
        0 <= j,
        reachable(m, d, j),
    ensures
        is_split(m, all_to(n, d, j), j),
        split_value(m, all_to(n, d, j)) == quoted(m, d, j),
    decreases n,
{
    let a = all_to(n, d, j);
    if d == n - 1 {
        lemma_idle_split(m, (n - 1) as nat);
        assert(a.drop_last() =~= all_to((n - 1) as nat, -1, 0));
        lemma_split_push(m, all_to((n - 1) as nat, -1, 0), 0, j);
        assert(a =~= all_to((n - 1) as nat, -1, 0).push(j));
    } else {
        lemma_all_to_one(m, (n - 1) as nat, d, j);
        assert(a.drop_last() =~= all_to((n - 1) as nat, d, j));
        lemma_split_push(m, all_to((n - 1) as nat, d, j), j, 0);
        assert(a =~= all_to((n - 1) as nat, d, j).push(0));
    }
}

/// With a single venue there is a route exactly when the venue can serve the
/// whole trade; the optimum then hands it every quantum and is worth its
/// quote for all of them.
pub proof fn lemma_single_venue(m: Seq<Seq<i128>>, steps: int, a: Seq<int>, value: int)
    requires
        m.len() == 1,
        0 <= steps,
    ensures
        viable(m, steps) <==> reachable(m, 0, steps),
        is_optimum(m, steps, a, value) ==> a == seq![steps] && value == quoted(m, 0, steps),
{
    if reachable(m, 0, steps) {
        lemma_all_to_one(m, 1, 0, steps);
        assert(is_route(m, steps, all_to(1, 0, steps)));
    }
    if viable(m, steps) {
        let b = choose|b: Seq<int>| is_route(m, steps, b);
        lemma_split_front(m, b, steps);
        assert(total(b.drop_last()) == 0);
        assert(b.last() == b[0]);
    }
    if is_optimum(m, steps, a, value) {
        lemma_split_front(m, a, steps);
        assert(total(a.drop_last()) == 0);
        assert(split_value(m, a.drop_last()) == 0);
        assert(a.last() == a[0]);
        assert(a =~= seq![steps]);
    }
}

/// Venue `d` quotes strictly more than every other venue at every level.
pub open spec fn dominates(m: Seq<Seq<i128>>, steps: int, d: int) -> bool {
    forall|v: int, k: int|
        0 <= v < m.len() && v != d && 0 <= k < steps ==> #[trigger] m[v][k] < m[d][k]
}

/// Venue `d` quotes no less for `x + y` quanta than for `x` and for `y`
/// together.
pub open spec fn joins_well(m: Seq<Seq<i128>>, d: int, x: int, y: int) -> bool {
    quoted(m, d, x) + quoted(m, d, y) <= quoted(m, d, x + y)
}

/// Venue `d` never quotes less for a quantity than for its parts together.
pub open spec fn rewards_size(m: Seq<Seq<i128>>, steps: int, d: int) -> bool {
    forall|x: int, y: int|
        1 <= x && 1 <= y && x + y <= steps ==> #[trigger] joins_well(m, d, x, y)
}

/// Under a dominating venue that rewards size, no split of the first `n`
/// venues beats handing everything to that venue, and only that split
/// reaches it.
proof fn lemma_dominated_split(m: Seq<Seq<i128>>, steps: int, d: int, b: Seq<int>, j: int)
    requires
        well_formed(m, steps),
        m.len() >= 2,
        0 <= d < m.len(),
        dominates(m, steps, d),
        rewards_size(m, steps, d),
        b.len() <= m.len(),
        is_split(m, b, j),
        j <= steps,
    ensures
        split_value(m, b) <= quoted(m, d, j),
        split_value(m, b) == quoted(m, d, j) ==> b == all_to(
            b.len(),
            d,
            j,
        ) && (b.len() <= d ==> j == 0),
    decreases b.len(),
{
    let n = b.len();
    assert(forall|k: int| 1 <= k <= steps ==> 0 <= #[trigger] quoted(m, d, k)) by {
        let other = if d == 0 {
            1int
        } else {
            0int
        };
        assert forall|k: int| 1 <= k <= steps implies 0 <= #[trigger] quoted(m, d, k) by {
            assert(valid_cell(m[other][k - 1]));
            assert(valid_cell(m[d][k - 1]));
        }
    }
    if n == 0 {
        assert(b =~= all_to(0, d, j));
    } else {
        lemma_split_front(m, b, j);
        let front = b.drop_last();
        let k = b.last();
        let v = n - 1;
        lemma_dominated_split(m, steps, d, front, j - k);
        assert(b =~= front.push(k));
        if k >= 1 {
            assert(valid_cell(m[v][k - 1]));
            assert(v != d ==> m[v][k - 1] < m[d][k - 1]);
            if j - k >= 1 {
                assert(joins_well(m, d, j - k, k));
            }
        }
        if split_value(m, b) == quoted(m, d, j) {
            assert(front == all_to(front.len(), d, j - k));
            assert(b =~= all_to(n, d, j));
        }
    }
}

/// Where one venue quotes strictly more than every other at every level, and
/// never less for a quantity than for its parts together, the optimum hands
/// that venue all the quanta.
pub proof fn lemma_dominant_venue_takes_all(
    m: Seq<Seq<i128>>,
    steps: int,
    d: int,
    a: Seq<int>,
    value: int,
)
    requires
        well_formed(m, steps),
        0 <= d < m.len(),
        1 <= steps,
        dominates(m, steps, d),
        rewards_size(m, steps, d),
        is_optimum(m, steps, a, value),
    ensures
        a == all_to(m.len(), d, steps),
        value == quoted(m, d, steps),
{
    if m.len() == 1 {
        lemma_single_venue(m, steps, a, value);
        assert(a =~= all_to(1, d, steps));
    } else {
        let other = if d == 0 {
            1int
        } else {
            0int
        };
        assert(valid_cell(m[other][steps - 1]));
        assert(m[other][steps - 1] < m[d][steps - 1]);
        lemma_all_to_one(m, m.len(), d, steps);
        assert(is_route(m, steps, all_to(m.len(), d, steps)));
        lemma_dominated_split(m, steps, d, a, steps);
    }
}

/// Venue `s` refuses every quantity but none.
pub open spec fn refuses_all(m: Seq<Seq<i128>>, steps: int, s: int) -> bool {
    forall|k: int| 0 <= k < steps ==> #[trigger] m[s][k] == MIN_VALUE
}

/// The output of a split depends on the rows of the venues it names only.
proof fn lemma_rows_below(m: Seq<Seq<i128>>, other: Seq<Seq<i128>>, a: Seq<int>)
    requires
        forall|v: int| 0 <= v < a.len() ==> #[trigger] m[v] == other[v],
    ensures
        split_value(m, a) == split_value(other, a),
    decreases a.len(),
{
    if a.len() > 0 {
        lemma_rows_below(m, other, a.drop_last());
        assert(m[a.len() - 1] == other[a.len() - 1]);
    }
}

/// Taking venue `s` out of a matrix and of a split takes out its share and
/// what it yields, and nothing else.
proof fn lemma_without(m: Seq<Seq<i128>>, s: int, a: Seq<int>)
    requires
        0 <= s < a.len() <= m.len(),
    ensures
        total(a) == total(a.remove(s)) + a[s],
        split_value(m, a) == split_value(m.remove(s), a.remove(s)) + quoted(m, s, a[s]),
    decreases a.len(),
{
    let n = a.len();
    let front = a.drop_last();
    let rest = m.remove(s);
    if s == n - 1 {
        assert(a.remove(s) =~= front);
        assert forall|v: int| 0 <= v < front.len() implies #[trigger] m[v] == rest[v] by {}
        lemma_rows_below(m, rest, front);
    } else {
        lemma_without(m, s, front);
        assert(a.remove(s).drop_last() =~= front.remove(s));
        assert(a.remove(s).last() == a.last());
        assert(rest[n - 2] == m[n - 1]);
        assert(front[s] == a[s]);
    }
}

/// A route that hands venue `s` nothing is a route of the other venues, with
/// the same output.
proof fn lemma_route_without(m: Seq<Seq<i128>>, steps: int, s: int, a: Seq<int>)
    requires
        0 <= s < m.len(),
        is_route(m, steps, a),
        a[s] == 0,
    ensures
        is_route(m.remove(s), steps, a.remove(s)),
        split_value(m.remove(s), a.remove(s)) == split_value(m, a),
{
    lemma_without(m, s, a);
    let rest = m.remove(s);
    let b = a.remove(s);
    assert forall|v: int| 0 <= v < b.len() implies 0 <= #[trigger] b[v] && reachable(
        rest,
        v,
        b[v],
    ) by {
        if v < s {
            assert(b[v] == a[v] && rest[v] == m[v]);
        } else {
            assert(b[v] == a[v + 1] && rest[v] == m[v + 1]);
        }
    }
}

/// A route of the other venues is a route of all of them that hands venue
/// `s` nothing, with the same output.
proof fn lemma_route_with(m: Seq<Seq<i128>>, steps: int, s: int, b: Seq<int>)
    requires
        0 <= s < m.len(),
        is_route(m.remove(s), steps, b),
    ensures
        is_route(m, steps, b.insert(s, 0)),
        split_value(m, b.insert(s, 0)) == split_value(m.remove(s), b),
        b.insert(s, 0).remove(s) == b,
        b.insert(s, 0)[s] == 0,
{
    let a = b.insert(s, 0);
    let rest = m.remove(s);
    assert(a.remove(s) =~= b);
    lemma_without(m, s, a);
    assert forall|v: int| 0 <= v < a.len() implies 0 <= #[trigger] a[v] && reachable(m, v, a[v]) by {
        if v < s {
            assert(a[v] == b[v] && rest[v] == m[v]);
        } else if v > s {
            assert(a[v] == b[v - 1] && rest[v - 1] == m[v]);
        }
    }
}

/// No route hands quanta to a venue that refuses every quantity.
pub proof fn lemma_refusing_venue_is_idle(m: Seq<Seq<i128>>, steps: int, s: int, a: Seq<int>)
    requires
        0 <= s < m.len(),
        refuses_all(m, steps, s),
        is_route(m, steps, a),
    ensures
        a[s] == 0,
{
    lemma_total_bounds(a, s);
    if a[s] >= 1 {
        assert(m[s][a[s] - 1] == MIN_VALUE);
    }
}

/// The order of preference does not look at a venue to which both splits
/// hand nothing.
proof fn lemma_prefers_without(a: Seq<int>, b: Seq<int>, s: int)
    requires
        a.len() == b.len(),
        0 <= s < a.len(),
        a[s] == b[s],
        prefers(a, b),
    ensures
        prefers(a.remove(s), b.remove(s)),
{
    let ar = a.remove(s);
    let br = b.remove(s);
    if a == b {
    } else {
        let v = choose|v: int|
            0 <= v < a.len() && #[trigger] a[v] < b[v] && forall|w: int|
                v < w < a.len() ==> #[trigger] a[w] == b[w];
        let vr = if v < s {
            v
        } else {
            v - 1
        };
        assert(ar[vr] < br[vr]);
        assert forall|w: int| vr < w < ar.len() implies #[trigger] ar[w] == br[w] by {
            if w < s {
                assert(a[w] == b[w]);
            } else {
                assert(a[w + 1] == b[w + 1]);
            }
        }
    }
}

/// A venue that refuses every quantity receives nothing in the optimum, and
/// leaves the other venues what they would have without it: the same route
/// exists or not, and the optimum of the others is the same split with the
/// same output.
pub proof fn lemma_refusing_venue_changes_nothing(
    m: Seq<Seq<i128>>,
    steps: int,
    s: int,
    a: Seq<int>,
    value: int,
)
    requires
        0 <= s < m.len(),
        refuses_all(m, steps, s),
    ensures
        viable(m, steps) <==> viable(m.remove(s), steps),
        is_optimum(m, steps, a, value) ==> a[s] == 0 && is_optimum(
            m.remove(s),
            steps,
            a.remove(s),
            value,
        ),
{
    let rest = m.remove(s);
    if viable(m, steps) {
        let b = choose|b: Seq<int>| is_route(m, steps, b);
        lemma_refusing_venue_is_idle(m, steps, s, b);
        lemma_route_without(m, steps, s, b);
    }
    if viable(rest, steps) {
        let b = choose|b: Seq<int>| is_route(rest, steps, b);
        lemma_route_with(m, steps, s, b);
    }
    if is_optimum(m, steps, a, value) {
        lemma_refusing_venue_is_idle(m, steps, s, a);
        lemma_route_without(m, steps, s, a);
        assert forall|b: Seq<int>| #[trigger] is_route(rest, steps, b) implies split_value(rest, b)
            <= value && (split_value(rest, b) == value ==> prefers(a.remove(s), b)) by {
            lemma_route_with(m, steps, s, b);
            let full = b.insert(s, 0);
            assert(is_route(m, steps, full));
            if split_value(rest, b) == value {
                lemma_prefers_without(a, full, s);
            }
        }
    }
}

/// Multiplies every share of a split.
pub open spec fn scaled(a: Seq<int>, factor: int) -> Seq<int> {
    Seq::new(a.len(), |v: int| a[v] * factor)
}

/// `fine` quotes, for every `factor` of its quanta, what `coarse` quotes for
/// one of its own.
pub open spec fn refines(
    fine: Seq<Seq<i128>>,
    coarse: Seq<Seq<i128>>,
    steps: int,
    factor: int,
) -> bool {
    &&& fine.len() == coarse.len()
    &&& forall|v: int, i: int|
        0 <= v < coarse.len() && 0 <= i < steps ==> #[trigger] coarse[v][i] == fine[v][(i + 1)
            * factor - 1]
}

/// A split over the coarse matrix, scaled, is a split over the fine one with
/// the same output.
proof fn lemma_scaled_split(
    fine: Seq<Seq<i128>>,
    coarse: Seq<Seq<i128>>,
    steps: int,
    factor: int,
    a: Seq<int>,
    j: int,
)
    requires
        1 <= factor,
        refines(fine, coarse, steps, factor),
        a.len() <= coarse.len(),
        is_split(coarse, a, j),
        j <= steps,
    ensures
        is_split(fine, scaled(a, factor), j * factor),
        split_value(fine, scaled(a, factor)) == split_value(coarse, a),
    decreases a.len(),
{
    let wide = scaled(a, factor);
    if a.len() == 0 {
        assert(0 * factor == 0);
    } else {
        lemma_split_front(coarse, a, j);
        let front = a.drop_last();
        let k = a.last();
        let v = a.len() - 1;
        lemma_scaled_split(fine, coarse, steps, factor, front, j - k);
        assert(wide.drop_last() =~= scaled(front, factor));
        assert(wide.last() == k * factor);
        assert((j - k) * factor + k * factor == j * factor) by (nonlinear_arith);
        assert(0 <= k * factor && (k >= 1 ==> k * factor >= 1)) by (nonlinear_arith)
            requires
                0 <= k,
                1 <= factor,
        ;
        if k >= 1 {
            assert(coarse[v][k - 1] == fine[v][(k - 1 + 1) * factor - 1]);
        } else {
            assert(k * factor == 0);
        }
        assert(reachable(fine, v, k * factor));
        assert(quoted(fine, v, k * factor) == quoted(coarse, v, k));
        lemma_split_push(fine, scaled(front, factor), (j - k) * factor, k * factor);
        assert(wide =~= scaled(front, factor).push(k * factor));
    }
}

/// Cutting every step of a matrix into `factor` finer ones never lowers the
/// optimum: a route stays a route, and the finer optimum is worth at least
/// as much.
pub proof fn lemma_refinement_never_loses(
    fine: Seq<Seq<i128>>,
    coarse: Seq<Seq<i128>>,
    steps: int,
    factor: int,
    a: Seq<int>,
    value: int,
    b: Seq<int>,
    fine_value: int,
)
    requires
        0 <= steps,
        1 <= factor,
        refines(fine, coarse, steps, factor),
    ensures
        viable(coarse, steps) ==> viable(fine, steps * factor),
        is_optimum(coarse, steps, a, value) && is_optimum(fine, steps * factor, b, fine_value)
            ==> value <= fine_value,
{
    if viable(coarse, steps) {
        let c = choose|c: Seq<int>| is_route(coarse, steps, c);
        lemma_scaled_split(fine, coarse, steps, factor, c, steps);
        assert(is_route(fine, steps * factor, scaled(c, factor)));
    }
    if is_optimum(coarse, steps, a, value) && is_optimum(fine, steps * factor, b, fine_value) {
        lemma_scaled_split(fine, coarse, steps, factor, a, steps);
        assert(is_route(fine, steps * factor, scaled(a, factor)));
    }
}

/// `m` holds what the pricing curves of `curves` answer at the levels of
/// `in_amount` in `partition` steps: a cell for each venue and level.
pub open spec fn quotes_levels(
    m: Seq<Seq<i128>>,
    curves: Seq<spec_fn(u64) -> i128>,
    in_amount: u64,
    partition: u64,
) -> bool {
    &&& m.len() == curves.len()
    &&& forall|v: int, i: int|
        0 <= v < m.len() && 0 <= i < partition ==> #[trigger] m[v][i] == curves[v](
            level(in_amount, partition, i) as u64,
        )
}

/// Level `i` of the coarse quantization is level `(i + 1) * factor - 1` of
/// the one with `factor` times as many steps.
pub proof fn lemma_level_refined(in_amount: u64, partition: u64, factor: u64, i: int)
    requires
        1 <= partition,
        1 <= factor,
        partition * factor <= u64::MAX,
        0 <= i < partition,
    ensures
        level(in_amount, (partition * factor) as u64, (i + 1) * factor - 1) == level(
            in_amount,
            partition,
            i,
        ),
{
    let t = in_amount as int;
    let p = partition as int;
    let f = factor as int;
    assert(0 <= t * (i + 1)) by (nonlinear_arith)
        requires
            0 <= t,
            0 <= i,
    ;
    lemma_div_multiples_vanish_quotient(f, t * (i + 1), p);
    assert(t * ((i + 1) * f - 1 + 1) == f * (t * (i + 1))) by (nonlinear_arith);
    assert(p * f == f * p) by (nonlinear_arith);
}

/// For the same venues and the same trade amount, multiplying the number of
/// steps never lowers the optimum: where the coarser quantization has a
/// route the finer one has too, and its optimum is worth at least as much.
pub proof fn lemma_more_steps_never_lose(
    curves: Seq<spec_fn(u64) -> i128>,
    in_amount: u64,
    partition: u64,
    factor: u64,
    coarse: Seq<Seq<i128>>,
    fine: Seq<Seq<i128>>,
    a: Seq<int>,
    value: int,
    b: Seq<int>,
    fine_value: int,
)
    requires
        1 <= partition,
        1 <= factor,
        partition * factor <= u64::MAX,
        quotes_levels(coarse, curves, in_amount, partition),
        quotes_levels(fine, curves, in_amount, (partition * factor) as u64),
    ensures
        viable(coarse, partition as int) ==> viable(fine, partition * factor),
        is_optimum(coarse, partition as int, a, value) && is_optimum(
            fine,
            partition * factor,
            b,
            fine_value,
        ) ==> value <= fine_value,
{
    let more = (partition * factor) as u64;
    assert forall|v: int, i: int| 0 <= v < coarse.len() && 0 <= i < partition implies #[trigger]
        coarse[v][i] == fine[v][(i + 1) * factor - 1] by {
        lemma_level_refined(in_amount, partition, factor, i);
        let at = (i + 1) * factor - 1;
        assert(0 <= at < more) by (nonlinear_arith)
            requires
                0 <= i < partition,
                1 <= factor,
                at == (i + 1) * factor - 1,
                more == partition * factor,
        ;
        assert(fine[v][at] == curves[v](level(in_amount, more, at) as u64));
    }
    assert(refines(fine, coarse, partition as int, factor as int));
    lemma_refinement_never_loses(
        fine,
        coarse,
        partition as int,
        factor as int,
        a,
        value,
        b,
        fine_value,
    );
}

/// The sequence with the entries at `i` and `j` exchanged.
pub open spec fn exchanged<T>(s: Seq<T>, i: int, j: int) -> Seq<T> {
    s.update(i, s[j]).update(j, s[i])
}

/// Exchanging two venues in the matrix and in a route gives a route with
/// the same output.
proof fn lemma_exchanged_route(m: Seq<Seq<i128>>, steps: int, i: int, j: int, a: Seq<int>)
    requires
        0 <= i < j < m.len(),
        is_route(m, steps, a),
    ensures
        is_route(exchanged(m, i, j), steps, exchanged(a, i, j)),
        split_value(exchanged(m, i, j), exchanged(a, i, j)) == split_value(m, a),
{
    let other = exchanged(m, i, j);
    let b = exchanged(a, i, j);
    lemma_without(m, j, a);
    lemma_without(m.remove(j), i, a.remove(j));
    lemma_without(other, j, b);
    lemma_without(other.remove(j), i, b.remove(j));
    assert(b.remove(j).remove(i) =~= a.remove(j).remove(i));
    assert(other.remove(j).remove(i) =~= m.remove(j).remove(i));
    assert(a.remove(j)[i] == a[i] && b.remove(j)[i] == a[j]);
    assert(m.remove(j)[i] == m[i] && other.remove(j)[i] == m[j]);
    assert forall|v: int| 0 <= v < b.len() implies 0 <= #[trigger] b[v] && reachable(
        other,
        v,
        b[v],
    ) by {
        if v == i {
            assert(0 <= a[j] && reachable(m, j, a[j]));
        } else if v == j {
            assert(0 <= a[i] && reachable(m, i, a[i]));
        } else {
            assert(0 <= a[v] && reachable(m, v, a[v]));
        }
    }
}

/// The order of the venues decides between equally good splits and nothing
/// else: with two venues exchanged the same routes exist, and the optimum
/// is worth the same.
pub proof fn lemma_venue_order_keeps_value(
    m: Seq<Seq<i128>>,
    steps: int,
    i: int,
    j: int,
    a: Seq<int>,
    value: int,
    b: Seq<int>,
    other: int,
)
    requires
        0 <= i < j < m.len(),
    ensures
        viable(m, steps) <==> viable(exchanged(m, i, j), steps),
        is_optimum(m, steps, a, value) && is_optimum(exchanged(m, i, j), steps, b, other) ==> value
            == other,
{
    let back = exchanged(m, i, j);
    assert(exchanged(back, i, j) =~= m);
    if viable(m, steps) {
        let c = choose|c: Seq<int>| is_route(m, steps, c);
        lemma_exchanged_route(m, steps, i, j, c);
    }
    if viable(back, steps) {
        let c = choose|c: Seq<int>| is_route(back, steps, c);
        lemma_exchanged_route(back, steps, i, j, c);
    }
    if is_optimum(m, steps, a, value) && is_optimum(back, steps, b, other) {
        lemma_exchanged_route(m, steps, i, j, a);
        lemma_exchanged_route(back, steps, i, j, b);
        assert(is_route(back, steps, exchanged(a, i, j)));
        assert(is_route(m, steps, exchanged(b, i, j)));
    }
}

} // verus!

//! Distribution optimizer and allocation reconstructor.

use vstd::prelude::*;
use crate::error::RouteError;
use crate::matrix::{MIN_VALUE, is_optimum, valid_cell, viable, well_formed};
use crate::search::{
    best, candidate, choice, chosen, cut, extend, lemma_cut_wins, lemma_scan_bounds,
    lemma_search_is_optimal, scan,
};

verus! {

/// The outcome of a routing request: how many quanta each venue receives, in
/// venue order, and the aggregate output that the split is quoted.
#[derive(Debug, PartialEq, Eq)]
pub struct Allocation {
    /// Quanta handed to each venue.
    pub quanta: Vec<u64>,
    /// Sum of the quotes that the venues gave for their shares.
    pub value: i128,
}

impl Allocation {
    /// The quanta as mathematical integers.
    pub open spec fn shares(&self) -> Seq<int> {
        Seq::new(self.quanta@.len(), |v: int| self.quanta@[v] as int)
    }
}

/// The rows of quotes as a matrix.
pub open spec fn table(amounts: &[&[i128]]) -> Seq<Seq<i128>> {
    Seq::new(amounts@.len(), |v: int| amounts@[v]@)
}

/// How a table cell holds a best output: the sentinel stands for "none".
spec fn stored(o: Option<int>) -> int {
    match o {
        Some(x) => x,
        None => MIN_VALUE as int,
    }
}

/// Row `n - 1` of the two tables: best outputs and the quanta left to the
/// earlier venues, for every number of quanta up to `steps`.
spec fn row_done(
    m: Seq<Seq<i128>>,
    steps: int,
    n: nat,
    values: Seq<i128>,
    origins: Seq<usize>,
    filled: int,
) -> bool {
    &&& values.len() == filled
    &&& origins.len() == filled
    &&& forall|j: int| 0 <= j < filled ==> #[trigger] values[j] == stored(best(m, n, j))
    &&& forall|j: int| 0 <= j < filled ==> #[trigger] origins[j] == j - chosen(m, n, j)
}

/// Best output of venues `0..=v` on `j` quanta, and what that leaves to the
/// venues before `v`, from the finished row of venue `v - 1`.
fn best_cut(amounts: &[&[i128]], steps: usize, v: usize, j: usize, below: &Vec<i128>) -> (r: (
    i128,
    usize,
))
    requires
        well_formed(table(amounts), steps as int),
        steps <= isize::MAX,
        1 <= v < amounts@.len(),
        j <= steps,
        below@.len() == steps + 1,
        forall|i: int|
            0 <= i <= steps ==> #[trigger] below@[i] == stored(best(table(amounts), v as nat, i)),
    ensures
        r.0 == stored(best(table(amounts), (v + 1) as nat, j as int)),
        r.1 == j - chosen(table(amounts), (v + 1) as nat, j as int),
{
    let ghost m = table(amounts);
    let ghost n = (v + 1) as nat;
    let row = amounts[v];
    assert(row@ == m[v as int]);
    let mut top: i128 = below[j];
    let mut from: usize = j;
    let mut k: usize = 1;
    proof {
        assert(scan(m, n, j as int, -1) is None);
        assert(candidate(m, n, j as int, 0) == best(m, v as nat, j as int));
        lemma_scan_bounds(m, steps as int, v as nat, j as int, j as int);
    }
    while k <= j
        invariant
            well_formed(m, steps as int),
            m == table(amounts),
            row@ == m[v as int],
            steps <= isize::MAX,
            n == v + 1,
            1 <= v < m.len(),
            j <= steps,
            1 <= k <= j + 1,
            below@.len() == steps + 1,
            forall|i: int| 0 <= i <= steps ==> #[trigger] below@[i] == stored(best(m, v as nat, i)),
            top == stored(scan(m, n, j as int, k - 1)),
            from == j - cut(m, n, j as int, k - 1),
        decreases j + 1 - k,
    {
        let prev = below[j - k];
        let quote = row[k - 1];
        proof {
            lemma_scan_bounds(m, steps as int, v as nat, j - k, j - k);
            lemma_scan_bounds(m, steps as int, n, j as int, k - 1);
            lemma_scan_bounds(m, steps as int, n, j as int, k as int);
            lemma_cut_wins(m, n, j as int, k as int);
            assert(valid_cell(m[v as int][k - 1]));
            assert(candidate(m, n, j as int, k as int) == extend(
                best(m, v as nat, j - k),
                m,
                v as int,
                k as int,
            ));
        }
        if prev != MIN_VALUE && quote != MIN_VALUE {
            let sum = prev + quote;
            if sum > top {
                top = sum;
                from = j - k;
            }
        }
        k = k + 1;
    }
    (top, from)
}

/// The two table rows of venue `v`, from the finished rows before it.
fn fill_row(amounts: &[&[i128]], steps: usize, v: usize, answer: &Vec<Vec<i128>>) -> (r: (
    Vec<i128>,
    Vec<usize>,
))
    requires
        well_formed(table(amounts), steps as int),
        steps <= isize::MAX,
        v < amounts@.len(),
        answer@.len() == v,
        v >= 1 ==> answer@[v - 1]@.len() == steps + 1 && forall|i: int|
            0 <= i <= steps ==> #[trigger] answer@[v - 1]@[i] == stored(
                best(table(amounts), v as nat, i),
            ),
    ensures
        row_done(table(amounts), steps as int, (v + 1) as nat, r.0@, r.1@, steps + 1),
{
    let ghost m = table(amounts);
    let ghost n = (v + 1) as nat;
    let mut values: Vec<i128> = Vec::new();
    let mut origins: Vec<usize> = Vec::new();
    let mut j: usize = 0;
    while j <= steps
        invariant
            well_formed(m, steps as int),
            m == table(amounts),
            steps <= isize::MAX,
            n == v + 1,
            v < amounts@.len(),
            answer@.len() == v,
            v >= 1 ==> answer@[v - 1]@.len() == steps + 1 && forall|i: int|
                0 <= i <= steps ==> #[trigger] answer@[v - 1]@[i] == stored(best(m, v as nat, i)),
            0 <= j <= steps + 1,
            row_done(m, steps as int, n, values@, origins@, j as int),
        decreases steps + 1 - j,
    {
        if v == 0 {
            let first = amounts[0];
            assert(first@ == m[0]);
            let value: i128 = if j == 0 {
                0
            } else {
                first[j - 1]
            };
            proof {
                if j > 0 {
                    assert(valid_cell(m[0][j - 1]));
                }
            }
            values.push(value);
            origins.push(0);
        } else {
            let (value, origin) = best_cut(amounts, steps, v, j, &answer[v - 1]);
            values.push(value);
            origins.push(origin);
        }
        j = j + 1;
    }
    (values, origins)
}

/// Finds the split of `partition` quanta over the venues of `amounts` that
/// yields the largest aggregate output.
///
/// Row `v` of `amounts` holds the quotes of venue `v`: cell `k - 1` is its
/// output for `k` quanta, or [`MIN_VALUE`] where it refused the quote. Cells
/// past the first `partition` of a row are not read. A venue may receive
/// nothing, which yields nothing. Among several best splits the one is
/// returned that gives the last venue least, then the one before it, and so
/// on.
pub fn find_distribution(partition: u64, amounts: &[&[i128]]) -> (r: Result<
    Allocation,
    RouteError,
>)
    requires
        partition > 0 ==> well_formed(table(amounts), partition as int),
        partition <= isize::MAX,
    ensures
        partition == 0 ==> r == Err::<Allocation, RouteError>(RouteError::InvalidStepCount),
        partition > 0 && !viable(table(amounts), partition as int) ==> r == Err::<
            Allocation,
            RouteError,
        >(RouteError::NoViableRoute),
        partition > 0 && viable(table(amounts), partition as int) ==> (r matches Ok(found)
            && is_optimum(
            table(amounts),
            partition as int,
            found.shares(),
            found.value as int,
        )),
{
    if partition == 0 {
        return Err(RouteError::InvalidStepCount);
    }
    let steps: usize = partition as usize;
    let venues: usize = amounts.len();
    let ghost m = table(amounts);
    let mut answer: Vec<Vec<i128>> = Vec::new();
    let mut parent: Vec<Vec<usize>> = Vec::new();
    let mut v: usize = 0;
    while v < venues
        invariant
            well_formed(m, steps as int),
            m == table(amounts),
            steps <= isize::MAX,
            venues == amounts@.len(),
            0 <= v <= venues,
            answer@.len() == v,
            parent@.len() == v,
            forall|u: int|
                0 <= u < v ==> row_done(
                    m,
                    steps as int,
                    (u + 1) as nat,
                    (#[trigger] answer@[u])@,
                    parent@[u]@,
                    steps + 1,
                ),
        decreases venues - v,
    {
        proof {
            if v >= 1 {
                assert(row_done(
                    m,
                    steps as int,
                    v as nat,
                    answer@[v - 1]@,
                    parent@[v - 1]@,
                    steps + 1,
                ));
            }
        }
        let (values, origins) = fill_row(amounts, steps, v, &answer);
        answer.push(values);
        parent.push(origins);
        v = v + 1;
    }
    proof {
        lemma_search_is_optimal(m, steps as int);
        lemma_scan_bounds(m, steps as int, venues as nat, steps as int, steps as int);
        assert(row_done(
            m,
            steps as int,
            venues as nat,
            answer@[venues - 1]@,
            parent@[venues - 1]@,
            steps + 1,
        ));
    }
    let value = answer[venues - 1][steps];
    if value == MIN_VALUE {
        return Err(RouteError::NoViableRoute);
    }
    let mut quanta: Vec<u64> = Vec::new();
    let mut w: usize = 0;
    while w < venues
        invariant
            0 <= w <= venues,
            quanta@.len() == w,
        decreases venues - w,
    {
        quanta.push(0);
        w = w + 1;
    }
    let mut left: usize = steps;
    let mut v: usize = venues;
    let ghost mut tail: Seq<int> = Seq::empty();
    while v > 0
        invariant
            m == table(amounts),
            venues == m.len(),
            0 <= v <= venues,
            0 <= left <= steps,
            quanta@.len() == venues,
            parent@.len() == venues,
            forall|u: int|
                0 <= u < venues ==> row_done(
                    m,
                    steps as int,
                    (u + 1) as nat,
                    (#[trigger] answer@[u])@,
                    parent@[u]@,
                    steps + 1,
                ),
            answer@.len() == venues,
            tail.len() == venues - v,
            forall|u: int| v <= u < venues ==> #[trigger] quanta@[u] as int == tail[u - v],
            choice(m, venues as nat, steps as int) =~= choice(m, v as nat, left as int) + tail,
        decreases v,
    {
        let ghost before = choice(m, v as nat, left as int);
        let ghost old_tail = tail;
        v = v - 1;
        proof {
            assert(row_done(
                m,
                steps as int,
                (v + 1) as nat,
                answer@[v as int]@,
                parent@[v as int]@,
                steps + 1,
            ));
            if v >= 1 {
                lemma_cut_wins(m, (v + 1) as nat, left as int, left as int);
            }
        }
        let from = parent[v][left];
        let share = left - from;
        quanta.set(v, share as u64);
        proof {
            let c = chosen(m, (v + 1) as nat, left as int);
            assert(share == c);
            assert(before == choice(m, v as nat, left - c).push(c));
            tail = seq![c] + old_tail;
            assert(before + old_tail =~= choice(m, v as nat, from as int) + tail);
            assert forall|u: int| v <= u < venues implies #[trigger] quanta@[u] as int == tail[u
                - v] by {
                if u > v {
                    assert(quanta@[u] as int == old_tail[u - (v + 1)]);
                }
            }
        }
        left = from;
    }
    let found = Allocation { quanta, value };
    proof {
        assert(choice(m, 0, left as int) =~= Seq::<int>::empty());
        assert(found.shares() =~= choice(m, venues as nat, steps as int));
    }
    Ok(found)
}

/// Sum of the cells of `matrix` that the entries of `distribution` point at.
pub open spec fn picked_sum(distribution: Seq<u64>, matrix: Seq<i128>) -> int
    decreases distribution.len(),
{
    if distribution.len() == 0 {
        0
    } else {
        picked_sum(distribution.drop_last(), matrix) + matrix[distribution.last() as int]
    }
}

/// Adds up the outputs that `matrix` lists for the quantities in
/// `distribution`: entry `i` contributes `matrix[distribution[i]]`.
///
/// The entries are added from the first to the last; every entry has to be an
/// index of `matrix`, and no sum on the way may leave the 128-bit range.
pub fn get_real_out_amount(distribution: &[u64], matrix: &[i128]) -> (sum: i128)
    requires
        forall|i: int| 0 <= i < distribution@.len() ==> #[trigger] distribution@[i] < matrix@.len(),
        forall|n: int|
            0 <= n <= distribution@.len() ==> i128::MIN <= #[trigger] picked_sum(
                distribution@.take(n),
                matrix@,
            ) <= i128::MAX,
    ensures
        sum == picked_sum(distribution@, matrix@),
{
    let mut sum: i128 = 0;
    let mut i: usize = 0;
    while i < distribution.len()
        invariant
            0 <= i <= distribution@.len(),
            sum == picked_sum(distribution@.take(i as int), matrix@),
            forall|i: int|
                0 <= i < distribution@.len() ==> #[trigger] distribution@[i] < matrix@.len(),
            forall|n: int|
                0 <= n <= distribution@.len() ==> i128::MIN <= #[trigger] picked_sum(
                    distribution@.take(n),
                    matrix@,
                ) <= i128::MAX,
        decreases distribution@.len() - i,
    {
        let item = distribution[i];
        proof {
            let next = distribution@.take(i + 1);
            assert(next.drop_last() =~= distribution@.take(i as int));
            assert(next.last() == item);
            assert(i128::MIN <= picked_sum(next, matrix@) <= i128::MAX);
        }
        sum = sum + matrix[item as usize];
        i = i + 1;
    }
    assert(distribution@.take(i as int) =~= distribution@);
    sum
}

} // verus!

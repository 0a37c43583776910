//! The symmetric all-pairs Euclidean distance table and tour lengths.
//!
//! A distance is a fixed-point number: `SCALE` times the Euclidean
//! distance, rounded down.

use vstd::prelude::*;

use crate::data::{DataNode, Point, COORD_MAX, N_MAX};
use crate::fixed::{is_sqrt_floor, isqrt, lemma_sqrt_floor_unique, SCALE, SQRT_IN_MAX};

verus! {

/// No distance between two in-bounds points exceeds this
/// (`isqrt(2 * COORD_MAX^2 * SCALE^2)` rounded down).
pub const DIST_MAX: u64 = 1_414_213_562_373;

/// The distance between two points of an absolute difference.
pub open spec fn abs_diff(a: int, b: int) -> int {
    if a >= b {
        a - b
    } else {
        b - a
    }
}

/// The squared Euclidean distance between two points, in squared
/// fixed-point units.
pub open spec fn sq_dist_scaled(a: Point, b: Point) -> int {
    (abs_diff(a.x as int, b.x as int) * abs_diff(a.x as int, b.x as int)
        + abs_diff(a.y as int, b.y as int) * abs_diff(a.y as int, b.y as int)) * (
    SCALE as int * SCALE as int)
}

/// `d` is the fixed-point Euclidean distance between `a` and `b`.
pub open spec fn is_dist(a: Point, b: Point, d: int) -> bool {
    is_sqrt_floor(sq_dist_scaled(a, b), d)
}

/// Fixed-point Euclidean distance between two points.
pub fn dist(a: &Point, b: &Point) -> (r: u64)
    requires
        a.x <= COORD_MAX,
        a.y <= COORD_MAX,
        b.x <= COORD_MAX,
        b.y <= COORD_MAX,
    ensures
        is_dist(*a, *b, r as int),
        r <= DIST_MAX,
{
    let dx: u128 = if a.x >= b.x {
        (a.x - b.x) as u128
    } else {
        (b.x - a.x) as u128
    };
    let dy: u128 = if a.y >= b.y {
        (a.y - b.y) as u128
    } else {
        (b.y - a.y) as u128
    };
    proof {
        assert(dx * dx + dy * dy <= 2 * (COORD_MAX as int) * (COORD_MAX as int))
            by (nonlinear_arith)
            requires 0 <= dx <= COORD_MAX as int, 0 <= dy <= COORD_MAX as int;
    }
    let sq: u128 = (dx * dx + dy * dy) * ((SCALE as u128) * (SCALE as u128));
    proof {
        assert(sq == sq_dist_scaled(*a, *b));
        assert(sq <= SQRT_IN_MAX) by (nonlinear_arith)
            requires sq == (dx * dx + dy * dy) * ((SCALE as int) * (SCALE as int)),
                dx * dx + dy * dy <= 2 * (COORD_MAX as int) * (COORD_MAX as int);
    }
    let r = isqrt(sq);
    proof {
        assert(r <= DIST_MAX) by (nonlinear_arith)
            requires
                0 <= r as int,
                (r as int) * (r as int) <= sq as int,
                sq as int <= 2_000_000_000_000_000_000_000_000;
    }
    r
}

/// The distance between a point and itself is zero.
pub proof fn lemma_dist_self_zero(a: Point, d: int)
    requires
        is_dist(a, a, d),
    ensures
        d == 0,
{
    assert(sq_dist_scaled(a, a) == 0);
    if d > 0 {
        assert(d * d >= 1) by (nonlinear_arith)
            requires d >= 1;
    }
}

/// Distance does not depend on the order of its two endpoints.
pub proof fn lemma_dist_symmetric(a: Point, b: Point, d1: int, d2: int)
    requires
        is_dist(a, b, d1),
        is_dist(b, a, d2),
    ensures
        d1 == d2,
{
    assert(sq_dist_scaled(a, b) == sq_dist_scaled(b, a));
    lemma_sqrt_floor_unique(sq_dist_scaled(a, b), d1, d2);
}

/// The abstract value of a distance matrix.
pub open spec fn mat_view(m: Vec<Vec<u64>>) -> Seq<Seq<u64>> {
    m@.map_values(|row: Vec<u64>| row@)
}

/// A well-formed `n x n` distance table: square, entries bounded by
/// `DIST_MAX`, symmetric with a zero diagonal, and each entry the
/// fixed-point distance between its two cities.
pub open spec fn matrix_wf(m: Seq<Seq<u64>>, data: Seq<DataNode>) -> bool {
    &&& m.len() == data.len()
    &&& forall|i: int| 0 <= i < m.len() ==> (#[trigger] m[i]).len() == data.len()
    &&& forall|i: int, j: int|
        0 <= i < m.len() && 0 <= j < m.len() ==> #[trigger] m[i][j] <= DIST_MAX
    &&& forall|i: int, j: int|
        0 <= i < m.len() && 0 <= j < m.len()
            ==> is_dist(data[i].point, data[j].point, #[trigger] m[i][j] as int)
}

/// The part of `matrix_wf` that tour-length computation needs: a square
/// table with entries bounded by `DIST_MAX`.
pub open spec fn matrix_sq_bounded(m: Seq<Seq<u64>>) -> bool {
    &&& forall|i: int| 0 <= i < m.len() ==> (#[trigger] m[i]).len() == m.len()
    &&& forall|i: int, j: int|
        0 <= i < m.len() && 0 <= j < m.len() ==> #[trigger] m[i][j] <= DIST_MAX
}

/// The two symmetry properties of a well-formed distance table:
/// `m[i][j] == m[j][i]` everywhere and `m[i][i] == 0` on the diagonal.
pub proof fn lemma_matrix_symmetry(m: Seq<Seq<u64>>, data: Seq<DataNode>)
    requires
        matrix_wf(m, data),
    ensures
        forall|i: int, j: int|
            0 <= i < m.len() && 0 <= j < m.len() ==> #[trigger] m[i][j] == m[j][i],
        forall|i: int| 0 <= i < m.len() ==> #[trigger] m[i][i] == 0,
{
    assert forall|i: int, j: int|
        0 <= i < m.len() && 0 <= j < m.len() implies #[trigger] m[i][j] == m[j][i] by {
        lemma_dist_symmetric(data[i].point, data[j].point, m[i][j] as int, m[j][i] as int);
    }
    assert forall|i: int| 0 <= i < m.len() implies #[trigger] m[i][i] == 0 by {
        lemma_dist_self_zero(data[i].point, m[i][i] as int);
    }
}

/// Builds the all-pairs fixed-point Euclidean distance table.
pub fn euclidian_distance_matrix(data: &Vec<DataNode>) -> (r: Vec<Vec<u64>>)
    requires
        crate::data::data_in_group_order(data@),
    ensures
        matrix_wf(mat_view(r), data@),
        forall|i: int, j: int|
            0 <= i < data@.len() && 0 <= j < data@.len() ==> #[trigger] mat_view(r)[i][j]
                == mat_view(r)[j][i],
        forall|i: int| 0 <= i < data@.len() ==> #[trigger] mat_view(r)[i][i] == 0,
{
    let n = data.len();
    let mut matrix: Vec<Vec<u64>> = Vec::new();
    for i in 0..n
        invariant
            crate::data::data_in_group_order(data@),
            n == data@.len(),
            matrix@.len() == i,
            forall|k: int| 0 <= k < i ==> (#[trigger] matrix@[k])@.len() == n,
            forall|k: int, j: int|
                0 <= k < i && 0 <= j < n ==> #[trigger] matrix@[k]@[j] <= DIST_MAX,
            forall|k: int, j: int|
                0 <= k < i && 0 <= j < n
                    ==> is_dist(data@[k].point, data@[j].point, #[trigger] matrix@[k]@[j] as int),
    {
        let mut row: Vec<u64> = Vec::new();
        for j in 0..n
            invariant
                crate::data::data_in_group_order(data@),
                n == data@.len(),
                0 <= i < n,
                row@.len() == j,
                forall|l: int| 0 <= l < j ==> #[trigger] row@[l] <= DIST_MAX,
                forall|l: int|
                    0 <= l < j
                        ==> is_dist(data@[i as int].point, data@[l].point, #[trigger] row@[l] as int),
        {
            let d = dist(&data[i].point, &data[j].point);
            row.push(d);
        }
        matrix.push(row);
    }
    proof {
        assert(mat_view(matrix) =~= matrix@.map_values(|row: Vec<u64>| row@));
        lemma_matrix_symmetry(mat_view(matrix), data@);
    }
    matrix
}

/// The length of the tour edge leaving position `i` (wrapping to the first
/// position from the last).
pub open spec fn edge_len(m: Seq<Seq<u64>>, sol: Seq<usize>, i: int) -> int {
    m[sol[i] as int][sol[(i + 1) % sol.len() as int] as int] as int
}

/// The summed length of the first `k` tour edges.
pub open spec fn tour_len_upto(m: Seq<Seq<u64>>, sol: Seq<usize>, k: int) -> int
    decreases k,
{
    if k <= 0 {
        0
    } else {
        tour_len_upto(m, sol, k - 1) + edge_len(m, sol, k - 1)
    }
}

/// The length of the cyclic tour `sol` under the distance table `m`.
pub open spec fn tour_len(m: Seq<Seq<u64>>, sol: Seq<usize>) -> int {
    tour_len_upto(m, sol, sol.len() as int)
}

/// A tour length sums at most `len` entries, each at most `DIST_MAX`.
pub proof fn lemma_tour_len_upto_bound(m: Seq<Seq<u64>>, sol: Seq<usize>, k: int)
    requires
        matrix_sq_bounded(m),
        forall|i: int| 0 <= i < sol.len() ==> #[trigger] sol[i] < m.len(),
        0 <= k <= sol.len(),
    ensures
        0 <= tour_len_upto(m, sol, k) <= k * DIST_MAX,
    decreases k,
{
    if k > 0 {
        lemma_tour_len_upto_bound(m, sol, k - 1);
        assert(0 <= (k % (sol.len() as int)) < sol.len() as int);
        assert(tour_len_upto(m, sol, k) <= (k - 1) * DIST_MAX + DIST_MAX);
        assert((k - 1) * DIST_MAX + DIST_MAX == k * DIST_MAX) by (nonlinear_arith);
    }
}

/// Sums the cyclic tour length of `solution` under `distances`.
pub fn get_solution_distance_of(distances: &Vec<Vec<u64>>, solution: &Vec<usize>) -> (r: u64)
    requires
        matrix_sq_bounded(mat_view(*distances)),
        forall|i: int|
            0 <= i < solution@.len() ==> #[trigger] solution@[i] < distances@.len(),
        solution@.len() <= N_MAX,
    ensures
        r as int == tour_len(mat_view(*distances), solution@),
{
    let size = solution.len();
    let mut sum: u64 = 0;
    for i in 0..size
        invariant
            matrix_sq_bounded(mat_view(*distances)),
            forall|k: int|
                0 <= k < solution@.len() ==> #[trigger] solution@[k] < distances@.len(),
            size == solution@.len() <= N_MAX,
            sum as int == tour_len_upto(mat_view(*distances), solution@, i as int),
            sum <= i * DIST_MAX,
    {
        let origem = solution[i];
        let destiny = solution[(i + 1) % size];
        proof {
            assert(mat_view(*distances)[origem as int] == distances@[origem as int]@);
            assert(mat_view(*distances)[origem as int][destiny as int] <= DIST_MAX);
            lemma_tour_len_upto_bound(mat_view(*distances), solution@, i as int);
            assert(i * DIST_MAX + DIST_MAX <= N_MAX * DIST_MAX) by (nonlinear_arith)
                requires 0 <= i as int, (i as int) < (N_MAX as int);
        }
        sum = sum + distances[origem][destiny];
    }
    sum
}

} // verus!

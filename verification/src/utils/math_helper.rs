use vstd::prelude::*;
use vstd::arithmetic::div_mod::{lemma_fundamental_div_mod, lemma_fundamental_div_mod_converse, lemma_multiply_divide_lt, lemma_mod_pos_bound};
use num_traits::Float;
use crate::utils::float::{difference, quotient};

verus! {

/// The linear position of the grid point `(i, j, k)` in a buffer laid out
/// with `i` fastest and `k` slowest.
pub open spec fn linear_index(i: int, j: int, k: int, num_x: int, num_y: int) -> int {
    k * num_x * num_y + j * num_x + i
}

/// The grid point `(i, j, k)` lies inside a grid of `num_x * num_y * num_z` points.
pub open spec fn in_grid(i: int, j: int, k: int, num_x: int, num_y: int, num_z: int) -> bool {
    0 <= i < num_x && 0 <= j < num_y && 0 <= k < num_z
}

/// A point inside the grid has a linear position inside the buffer.
pub proof fn lemma_linear_index_bounds(i: int, j: int, k: int, num_x: int, num_y: int, num_z: int)
    requires
        in_grid(i, j, k, num_x, num_y, num_z),
    ensures
        0 <= linear_index(i, j, k, num_x, num_y),
        linear_index(i, j, k, num_x, num_y) < num_x * num_y * num_z,
{
    assert(0 <= j * num_x + i < num_x * num_y) by (nonlinear_arith)
        requires 0 <= i < num_x, 0 <= j < num_y;
    assert(0 <= k * num_x * num_y) by (nonlinear_arith)
        requires 0 <= k, 0 <= num_x, 0 <= num_y;
    assert(k * num_x * num_y + num_x * num_y <= num_x * num_y * num_z) by (nonlinear_arith)
        requires 0 <= k < num_z, 0 <= num_x, 0 <= num_y;
}

/// Splitting a linear position into grid coordinates undoes [`linear_index`]:
/// the coordinates are the only in-grid point that maps to the position.
pub proof fn lemma_linear_index_unique(
    i: int, j: int, k: int, a: int, b: int, c: int, num_x: int, num_y: int, num_z: int,
)
    requires
        in_grid(i, j, k, num_x, num_y, num_z),
        in_grid(a, b, c, num_x, num_y, num_z),
        linear_index(i, j, k, num_x, num_y) == linear_index(a, b, c, num_x, num_y),
    ensures
        i == a && j == b && k == c,
{
    let idx = linear_index(i, j, k, num_x, num_y);
    let plane = num_x * num_y;
    assert(0 <= j * num_x + i < plane) by (nonlinear_arith)
        requires 0 <= i < num_x, 0 <= j < num_y, plane == num_x * num_y;
    assert(0 <= b * num_x + a < plane) by (nonlinear_arith)
        requires 0 <= a < num_x, 0 <= b < num_y, plane == num_x * num_y;
    assert(idx == k * plane + (j * num_x + i)) by (nonlinear_arith)
        requires idx == k * num_x * num_y + j * num_x + i, plane == num_x * num_y;
    assert(idx == c * plane + (b * num_x + a)) by (nonlinear_arith)
        requires idx == c * num_x * num_y + b * num_x + a, plane == num_x * num_y;
    lemma_fundamental_div_mod_converse(idx, plane, k, j * num_x + i);
    lemma_fundamental_div_mod_converse(idx, plane, c, b * num_x + a);
    let rest = j * num_x + i;
    lemma_fundamental_div_mod_converse(rest, num_x, j, i);
    lemma_fundamental_div_mod_converse(rest, num_x, b, a);
}

/// Returns the linear position in the data buffer of the grid point `(i, j, k)`
/// for a grid of `num_x * num_y * num_z` points, with `i` running fastest.
pub fn index1d_from_index3d(
    i: usize,
    j: usize,
    k: usize,
    num_x: usize,
    num_y: usize,
    num_z: usize,
) -> (index: usize)
    requires
        i < num_x && j < num_y && k < num_z,
        num_x * num_y * num_z <= usize::MAX,
    ensures
        index == linear_index(i as int, j as int, k as int, num_x as int, num_y as int),
        index < num_x * num_y * num_z,
{
    proof {
        lemma_linear_index_bounds(i as int, j as int, k as int, num_x as int, num_y as int, num_z as int);
        assert(num_x * num_y <= num_x * num_y * num_z) by (nonlinear_arith)
            requires k < num_z, 0 <= num_x, 0 <= num_y;
        assert(k * num_x * num_y <= num_x * num_y * num_z) by (nonlinear_arith)
            requires k < num_z, 0 <= num_x, 0 <= num_y;
        assert(j * num_x <= num_x * num_y) by (nonlinear_arith)
            requires j < num_y, 0 <= num_x;
        assert(k * num_x <= k * num_x * num_y) by (nonlinear_arith)
            requires j < num_y, 0 <= num_x, 0 <= k;
    }
    (k * num_x * num_y) + (j * num_x) + i
}

/// Returns the grid point `(i, j, k)` stored at linear position `index` of a
/// grid of `num_x * num_y * num_z` points. Inverse of [`index1d_from_index3d`].
pub fn index3d_from_index1d(
    index: usize,
    num_x: usize,
    num_y: usize,
    num_z: usize,
) -> (ijk: (usize, usize, usize))
    requires
        index < num_x * num_y * num_z,
        num_x * num_y * num_z <= usize::MAX,
    ensures
        in_grid(ijk.0 as int, ijk.1 as int, ijk.2 as int, num_x as int, num_y as int, num_z as int),
        linear_index(ijk.0 as int, ijk.1 as int, ijk.2 as int, num_x as int, num_y as int) == index,
{
    proof {
        assert(num_x > 0 && num_y > 0 && num_z > 0) by (nonlinear_arith)
            requires index < num_x * num_y * num_z, 0 <= index, num_x >= 0, num_y >= 0, num_z >= 0;
        assert(num_x * num_y <= num_x * num_y * num_z) by (nonlinear_arith)
            requires num_z >= 1, num_x >= 0, num_y >= 0;
    }
    let plane = num_x * num_y;
    let k = index / plane;
    proof {
        lemma_fundamental_div_mod(index as int, plane as int);
        lemma_mod_pos_bound(index as int, plane as int);
        assert(plane * (index as int / plane as int) <= index);
        assert(k * plane <= index) by (nonlinear_arith)
            requires plane * (index as int / plane as int) <= index, k == index as int / plane as int;
        assert(k * num_x <= k * num_x * num_y) by (nonlinear_arith)
            requires num_y >= 1, 0 <= num_x, 0 <= k;
        assert(k * num_x * num_y == k * plane) by (nonlinear_arith)
            requires plane == num_x * num_y;
        lemma_multiply_divide_lt(index as int, plane as int, num_z as int);
        assert(plane * num_z == num_x * num_y * num_z) by (nonlinear_arith)
            requires plane == num_x * num_y;
    }
    let temp = index - (k * num_x * num_y);
    let j = temp / num_x;
    let i = temp % num_x;
    proof {
        assert(k * num_x * num_y == k * plane) by (nonlinear_arith)
            requires plane == num_x * num_y;
        assert(temp == index as int % plane as int);
        lemma_fundamental_div_mod(temp as int, num_x as int);
        lemma_mod_pos_bound(temp as int, num_x as int);
        lemma_multiply_divide_lt(temp as int, num_x as int, num_y as int);
        assert(index == k * num_x * num_y + j * num_x + i) by (nonlinear_arith)
            requires
                index == k * plane + temp,
                plane == num_x * num_y,
                temp == num_x * j + i;
    }
    (i, j, k)
}

/// Both directions of the index conversion are inverse to each other on the grid.
pub proof fn lemma_index_roundtrip(index: int, i: int, j: int, k: int, num_x: int, num_y: int, num_z: int)
    requires
        in_grid(i, j, k, num_x, num_y, num_z),
        0 <= index < num_x * num_y * num_z,
    ensures
        (linear_index(i, j, k, num_x, num_y) == index) ==> (index / (num_x * num_y) == k
            && (index % (num_x * num_y)) / num_x == j && (index % (num_x * num_y)) % num_x == i),
{
    if linear_index(i, j, k, num_x, num_y) == index {
        let plane = num_x * num_y;
        assert(0 <= j * num_x + i < plane) by (nonlinear_arith)
            requires 0 <= i < num_x, 0 <= j < num_y, plane == num_x * num_y;
        assert(index == k * plane + (j * num_x + i)) by (nonlinear_arith)
            requires index == k * num_x * num_y + j * num_x + i, plane == num_x * num_y;
        lemma_fundamental_div_mod_converse(index, plane, k, j * num_x + i);
        lemma_fundamental_div_mod_converse(j * num_x + i, num_x, j, i);
    }
}

/// Linear remap of `value` so that `min` maps to zero and `max` to one.
pub(crate) fn normalize<T: Float>(value: T, min: T, max: T) -> T {
    quotient(difference(value, min), difference(max, min))
}

} // verus!

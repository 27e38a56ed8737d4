use vstd::prelude::*;
use num_traits::Float;
use rayon::iter::{IndexedParallelIterator, IntoParallelRefMutIterator, ParallelIterator};

use crate::types::computation::model::ModelComponent;
use crate::types::geometry::{Vec3, Vec3i};
use crate::utils::float::{from_usize, lt, one, product, quotient, sum, difference, abs, zero};
use crate::utils::math_helper::{
    in_grid, index1d_from_index3d, index3d_from_index1d, lemma_linear_index_unique,
    linear_index,
};

verus! {

// Index arithmetic and value operations shared by the dense grids of values: a buffer
// holding one value per grid point, `i` running fastest.

/// `values` holds, at the buffer position of each point `(i, j, k)` of a grid of
/// `nx * ny * nz` points, the value of `output` at `(xs[i], ys[j], zs[k])`, wherever that
/// value is exact (see [`ModelComponent::exact_value`]): the x coordinate of a point is
/// given by `i` alone, y by `j` alone, z by `k` alone.
pub open spec fn sampled_on_axes<T>(
    output: ModelComponent<T>,
    values: Seq<T>,
    nx: int,
    ny: int,
    nz: int,
    xs: Seq<T>,
    ys: Seq<T>,
    zs: Seq<T>,
) -> bool {
    &&& xs.len() == nx && ys.len() == ny && zs.len() == nz
    &&& forall|i: int, j: int, k: int|
        in_grid(i, j, k, nx, ny, nz) ==> (output.exact_value(xs[i], ys[j], zs[k]) matches Some(v)
            ==> #[trigger] values[linear_index(i, j, k, nx, ny)] == v)
}

/// `values` are `output` sampled on a grid of `nx * ny * nz` points, for some coordinates
/// along each axis (see [`sampled_on_axes`]).
pub open spec fn sampled_on_grid<T>(output: ModelComponent<T>, values: Seq<T>, nx: int, ny: int, nz: int) -> bool {
    exists|xs: Seq<T>, ys: Seq<T>, zs: Seq<T>| #[trigger] sampled_on_axes(output, values, nx, ny, nz, xs, ys, zs)
}

/// On a grid sampled from a component whose value is exactly the x coordinate, two
/// points with the same `i` hold the same value, whatever their `j` and `k`: the value
/// varies along the x axis only, as the x coordinate does.
pub proof fn lemma_sampled_x_follows_i<T>(
    output: ModelComponent<T>,
    values: Seq<T>,
    nx: int,
    ny: int,
    nz: int,
    i: int,
    j1: int,
    k1: int,
    j2: int,
    k2: int,
)
    requires
        sampled_on_grid(output, values, nx, ny, nz),
        forall|x: T, y: T, z: T| #[trigger] output.exact_value(x, y, z) == Some(x),
        in_grid(i, j1, k1, nx, ny, nz),
        in_grid(i, j2, k2, nx, ny, nz),
    ensures
        values[linear_index(i, j1, k1, nx, ny)] == values[linear_index(i, j2, k2, nx, ny)],
{
    let (xs, ys, zs) = choose|xs: Seq<T>, ys: Seq<T>, zs: Seq<T>| #[trigger] sampled_on_axes(output, values, nx, ny, nz, xs, ys, zs);
    assert(output.exact_value(xs[i], ys[j1], zs[k1]) == Some(xs[i]));
    assert(output.exact_value(xs[i], ys[j2], zs[k2]) == Some(xs[i]));
}

/// The buffer position of grid point `(i, j, k)`.
pub open spec fn point_at(n: Vec3i, i: int, j: int, k: int) -> int {
    linear_index(i, j, k, n.i as int, n.j as int)
}

/// The buffer positions of the eight corners of cell `(i, j, k)`, in the order: the four
/// corners of the lower face counter-clockwise from `(i, j)`, then those of the upper face.
pub open spec fn corner_ids(n: Vec3i, i: int, j: int, k: int) -> Seq<int> {
    seq![
        point_at(n, i, j, k),
        point_at(n, i + 1, j, k),
        point_at(n, i + 1, j + 1, k),
        point_at(n, i, j + 1, k),
        point_at(n, i, j, k + 1),
        point_at(n, i + 1, j, k + 1),
        point_at(n, i + 1, j + 1, k + 1),
        point_at(n, i, j + 1, k + 1),
    ]
}

/// `(i, j, k)` is a cell of the grid: all its corners are grid points.
pub open spec fn valid_cell(n: Vec3i, i: int, j: int, k: int) -> bool {
    0 <= i && 0 <= j && 0 <= k && i + 1 < n.i && j + 1 < n.j && k + 1 < n.k
}

/// The grid point at buffer position `index` lies on a face of the grid.
pub open spec fn on_boundary(n: Vec3i, index: int) -> bool {
    exists|i: int, j: int, k: int|
        #![trigger point_at(n, i, j, k)]
        in_grid(i, j, k, n.i as int, n.j as int, n.k as int) && point_at(n, i, j, k) == index && (i == 0 || j == 0
            || k == 0 || i == n.i - 1 || j == n.j - 1 || k == n.k - 1)
}

/// The position of a grid point, with the facts that callers need.
fn point_index(n: Vec3i, i: usize, j: usize, k: usize) -> (index: usize)
    requires
        in_grid(i as int, j as int, k as int, n.i as int, n.j as int, n.k as int),
        n.count() <= usize::MAX,
    ensures
        index == point_at(n, i as int, j as int, k as int),
        index < n.count(),
{
    index1d_from_index3d(i, j, k, n.i, n.j, n.k)
}

/// The buffer positions of the corners of a cell.
pub fn cell_ids(n: Vec3i, i: usize, j: usize, k: usize) -> (ids: [usize; 8])
    requires
        valid_cell(n, i as int, j as int, k as int),
        n.count() <= usize::MAX,
    ensures
        forall|m: int| 0 <= m < 8 ==> ids@[m] == corner_ids(n, i as int, j as int, k as int)[m],
        forall|m: int| 0 <= m < 8 ==> ids@[m] < n.count(),
{
    [
        point_index(n, i, j, k),
        point_index(n, i + 1, j, k),
        point_index(n, i + 1, j + 1, k),
        point_index(n, i, j + 1, k),
        point_index(n, i, j, k + 1),
        point_index(n, i + 1, j, k + 1),
        point_index(n, i + 1, j + 1, k + 1),
        point_index(n, i, j + 1, k + 1),
    ]
}

/// The values at the corners of a cell.
pub fn cell_values<T: Copy>(data: &[T], n: Vec3i, i: usize, j: usize, k: usize) -> (values: [T; 8])
    requires
        valid_cell(n, i as int, j as int, k as int),
        data@.len() == n.count(),
        n.count() <= usize::MAX,
    ensures
        forall|m: int| 0 <= m < 8 ==> values@[m] == data@[corner_ids(n, i as int, j as int, k as int)[m]],
{
    let ids = cell_ids(n, i, j, k);
    [
        data[ids[0]],
        data[ids[1]],
        data[ids[2]],
        data[ids[3]],
        data[ids[4]],
        data[ids[5]],
        data[ids[6]],
        data[ids[7]],
    ]
}

/// The eight corners of the axis-aligned box from `lo` to `hi`, in the order of
/// [`corner_ids`]: the lower face counter-clockwise from `lo`, then the upper face.
pub open spec fn box_corner_points<T>(lo: Vec3<T>, hi: Vec3<T>) -> Seq<Vec3<T>> {
    seq![
        Vec3 { x: lo.x, y: lo.y, z: lo.z },
        Vec3 { x: hi.x, y: lo.y, z: lo.z },
        Vec3 { x: hi.x, y: hi.y, z: lo.z },
        Vec3 { x: lo.x, y: hi.y, z: lo.z },
        Vec3 { x: lo.x, y: lo.y, z: hi.z },
        Vec3 { x: hi.x, y: lo.y, z: hi.z },
        Vec3 { x: hi.x, y: hi.y, z: hi.z },
        Vec3 { x: lo.x, y: hi.y, z: hi.z },
    ]
}

/// The locations of the corners of cell `(i, j, k)` of a grid with this origin and
/// spacing, in the order of [`corner_ids`]: an axis-aligned box, each coordinate of a
/// corner the one of the lowest or of the highest corner.
pub fn cell_corners<T: Float>(origin: Vec3<T>, size: T, i: usize, j: usize, k: usize) -> (corners: [Vec3<T>; 8])
    ensures
        corners@ == box_corner_points(corners[0], corners[6]),
{
    let i_val: T = from_usize(i);
    let j_val: T = from_usize(j);
    let k_val: T = from_usize(k);
    let unit: T = one();
    let x0 = product(i_val, size);
    let x1 = product(sum(i_val, unit), size);
    let y0 = product(j_val, size);
    let y1 = product(sum(j_val, unit), size);
    let z0 = product(k_val, size);
    let z1 = product(sum(k_val, unit), size);
    let lo = origin.add_vec(Vec3::new(x0, y0, z0));
    let hi = origin.add_vec(Vec3::new(x1, y1, z1));
    let corners = [
        lo,
        Vec3::new(hi.x, lo.y, lo.z),
        Vec3::new(hi.x, hi.y, lo.z),
        Vec3::new(lo.x, hi.y, lo.z),
        Vec3::new(lo.x, lo.y, hi.z),
        Vec3::new(hi.x, lo.y, hi.z),
        hi,
        Vec3::new(lo.x, hi.y, hi.z),
    ];
    assert(corners@ =~= box_corner_points(lo, hi));
    corners
}

/// The grid point at a buffer position: the one point that maps to it.
fn point_of(n: Vec3i, index: usize) -> (ijk: (usize, usize, usize))
    requires
        index < n.count(),
        n.count() <= usize::MAX,
    ensures
        in_grid(ijk.0 as int, ijk.1 as int, ijk.2 as int, n.i as int, n.j as int, n.k as int),
        point_at(n, ijk.0 as int, ijk.1 as int, ijk.2 as int) == index,
        forall|a: int, b: int, c: int|
            in_grid(a, b, c, n.i as int, n.j as int, n.k as int) && #[trigger] point_at(n, a, b, c) == index ==> a
                == ijk.0 && b == ijk.1 && c == ijk.2,
{
    let ijk = index3d_from_index1d(index, n.i, n.j, n.k);
    proof {
        assert forall|a: int, b: int, c: int|
            in_grid(a, b, c, n.i as int, n.j as int, n.k as int) && #[trigger] point_at(n, a, b, c) == index implies a
                == ijk.0 && b == ijk.1 && c == ijk.2 by {
            lemma_linear_index_unique(
                ijk.0 as int,
                ijk.1 as int,
                ijk.2 as int,
                a,
                b,
                c,
                n.i as int,
                n.j as int,
                n.k as int,
            );
        }
    }
    ijk
}

/// Whether the point at a buffer position lies on a face of the grid.
pub fn is_boundary(n: Vec3i, index: usize) -> (b: bool)
    requires
        index < n.count(),
        n.count() <= usize::MAX,
    ensures
        b == on_boundary(n, index as int),
{
    let (i, j, k) = point_of(n, index);
    let b = i < 1 || j < 1 || k < 1 || i == n.i - 1 || j == n.j - 1 || k == n.k - 1;
    proof {
        if b {
            assert(point_at(n, i as int, j as int, k as int) == index);
        }
    }
    b
}

/// The sum of the values at the six neighbours of a point, or `None` for a point on a
/// face of the grid, which lacks some of them.
pub fn neighbours_sum<T: Float>(data: &[T], n: Vec3i, index: usize) -> (s: Option<T>)
    requires
        index < n.count(),
        data@.len() == n.count(),
        n.count() <= usize::MAX,
    ensures
        s is None <==> on_boundary(n, index as int),
{
    let (i, j, k) = point_of(n, index);
    if i < 1 || j < 1 || k < 1 || i == n.i - 1 || j == n.j - 1 || k == n.k - 1 {
        proof {
            assert(point_at(n, i as int, j as int, k as int) == index);
        }
        return None;
    }
    let total = sum(
        sum(
            sum(data[point_index(n, i + 1, j, k)], data[point_index(n, i - 1, j, k)]),
            sum(data[point_index(n, i, j + 1, k)], data[point_index(n, i, j - 1, k)]),
        ),
        sum(data[point_index(n, i, j, k + 1)], data[point_index(n, i, j, k - 1)]),
    );
    Some(total)
}

/// The smoothed value of a point: on a face of the grid the value itself; elsewhere the
/// interpolation by `factor` between the value and the average of its six neighbours.
pub fn smoothed_value<T: Float>(data: &[T], n: Vec3i, index: usize, factor: T) -> (value: T)
    requires
        index < n.count(),
        data@.len() == n.count(),
        n.count() <= usize::MAX,
    ensures
        on_boundary(n, index as int) ==> value == data@[index as int],
{
    match neighbours_sum(data, n, index) {
        Some(total) => {
            let laplacian = quotient(total, from_usize(6));
            sum(product(difference(one(), factor), data[index]), product(factor, laplacian))
        },
        None => data[index],
    }
}

/// One pass of smoothing: the smoothed value of every point, from the values before the
/// pass.
pub fn smooth_pass<T: Float>(data: &Vec<T>, n: Vec3i, factor: T) -> (out: Vec<T>)
    requires
        data@.len() == n.count(),
        n.count() <= usize::MAX,
    ensures
        out@.len() == data@.len(),
        forall|index: int| 0 <= index < data@.len() && on_boundary(n, index) ==> out@[index] == data@[index],
{
    let count = data.len();
    let mut out: Vec<T> = Vec::new();
    let mut index: usize = 0;
    while index < count
        invariant
            count == data@.len(),
            data@.len() == n.count(),
            n.count() <= usize::MAX,
            index <= count,
            out@.len() == index,
            forall|m: int| 0 <= m < index && on_boundary(n, m) ==> out@[m] == data@[m],
        decreases count - index,
    {
        out.push(smoothed_value(data.as_slice(), n, index, factor));
        index = index + 1;
    }
    out
}

/// rayon's `par_iter_mut().enumerate().for_each(..)` over `out`: each position is set,
/// in parallel, to [`smoothed_value`] of the same position of `data`. What is stated is
/// what that function guarantees of each position, and that the length is kept.
#[verifier::external_body]
fn smooth_pass_par<T: Float + Send + Sync>(data: &[T], n: Vec3i, factor: T, out: &mut Vec<T>)
    requires
        data@.len() == n.count(),
        n.count() <= usize::MAX,
        old(out)@.len() == data@.len(),
    ensures
        final(out)@.len() == old(out)@.len(),
        forall|index: int| 0 <= index < data@.len() && on_boundary(n, index) ==> final(out)@[index] == data@[index],
{
    out.par_iter_mut().enumerate().for_each(|(index, value)| *value = smoothed_value(data, n, index, factor));
}

/// Laplacian smoothing of the values over `iterations` passes, the points of each pass
/// computed in parallel. Values on the faces of the grid are kept.
pub fn smooth_par<T: Float + Send + Sync>(data: &mut Vec<T>, n: Vec3i, factor: T, iterations: u32)
    requires
        old(data)@.len() == n.count(),
        n.count() <= usize::MAX,
    ensures
        final(data)@.len() == old(data)@.len(),
        forall|index: int| 0 <= index < old(data)@.len() && on_boundary(n, index) ==> final(data)@[index]
            == old(data)@[index],
        iterations == 0 ==> final(data)@ == old(data)@,
{
    let mut smoothed: Vec<T> = Vec::new();
    let mut index: usize = 0;
    while index < data.len()
        invariant
            index <= data@.len(),
            smoothed@.len() == index,
        decreases data@.len() - index,
    {
        smoothed.push(zero());
        index = index + 1;
    }
    let mut pass: u32 = 0;
    while pass < iterations
        invariant
            data@.len() == old(data)@.len(),
            smoothed@.len() == data@.len(),
            old(data)@.len() == n.count(),
            n.count() <= usize::MAX,
            pass <= iterations,
            forall|index: int| 0 <= index < old(data)@.len() && on_boundary(n, index) ==> data@[index]
                == old(data)@[index],
            pass == 0 ==> data@ == old(data)@,
        decreases iterations - pass,
    {
        smooth_pass_par(data.as_slice(), n, factor, &mut smoothed);
        std::mem::swap(data, &mut smoothed);
        pass = pass + 1;
    }
}

/// Laplacian smoothing of the values over `iterations` passes. Values on the faces of the
/// grid are kept.
pub fn smooth<T: Float>(data: &mut Vec<T>, n: Vec3i, factor: T, iterations: u32)
    requires
        old(data)@.len() == n.count(),
        n.count() <= usize::MAX,
    ensures
        final(data)@.len() == old(data)@.len(),
        forall|index: int| 0 <= index < old(data)@.len() && on_boundary(n, index) ==> final(data)@[index]
            == old(data)@[index],
        iterations == 0 ==> final(data)@ == old(data)@,
{
    let mut pass: u32 = 0;
    while pass < iterations
        invariant
            data@.len() == old(data)@.len(),
            old(data)@.len() == n.count(),
            n.count() <= usize::MAX,
            pass <= iterations,
            forall|index: int| 0 <= index < old(data)@.len() && on_boundary(n, index) ==> data@[index]
                == old(data)@[index],
            pass == 0 ==> data@ == old(data)@,
        decreases iterations - pass,
    {
        let next = smooth_pass(data, n, factor);
        *data = next;
        pass = pass + 1;
    }
}

/// Every value is `z`.
pub open spec fn all_equal<T>(s: Seq<T>, z: T) -> bool {
    forall|index: int| 0 <= index < s.len() ==> #[trigger] s[index] == z
}

/// Each value after is the value before or `z`.
pub open spec fn kept_or_set<T>(before: Seq<T>, after: Seq<T>, z: T) -> bool {
    &&& after.len() == before.len()
    &&& forall|index: int| 0 <= index < before.len() ==> #[trigger] after[index] == before[index] || after[index] == z
}

/// Set every value whose magnitude is below `limit` to zero.
pub fn threshold<T: Float>(data: &mut Vec<T>, limit: T)
    ensures
        final(data)@.len() == old(data)@.len(),
        exists|z: T| #[trigger] kept_or_set(old(data)@, final(data)@, z),
{
    let z: T = zero();
    let mut index: usize = 0;
    while index < data.len()
        invariant
            data@.len() == old(data)@.len(),
            index <= data@.len(),
            forall|m: int| 0 <= m < data@.len() ==> #[trigger] data@[m] == old(data)@[m] || data@[m] == z,
        decreases data@.len() - index,
    {
        if lt(abs(data[index]), limit) {
            data.set(index, z);
        }
        index = index + 1;
    }
    assert(kept_or_set(old(data)@, data@, z));
}

/// Set every value on a face of the grid to `value`, keeping the others.
pub fn padding<T: Copy>(data: &mut Vec<T>, n: Vec3i, value: T)
    requires
        old(data)@.len() == n.count(),
        n.count() <= usize::MAX,
    ensures
        final(data)@.len() == old(data)@.len(),
        forall|index: int| 0 <= index < old(data)@.len() ==> #[trigger] final(data)@[index] == if on_boundary(n, index) {
            value
        } else {
            old(data)@[index]
        },
{
    let mut index: usize = 0;
    while index < data.len()
        invariant
            data@.len() == old(data)@.len(),
            old(data)@.len() == n.count(),
            n.count() <= usize::MAX,
            index <= data@.len(),
            forall|m: int| 0 <= m < index ==> #[trigger] data@[m] == if on_boundary(n, m) {
                value
            } else {
                old(data)@[m]
            },
            forall|m: int| index <= m < data@.len() ==> #[trigger] data@[m] == old(data)@[m],
        decreases data@.len() - index,
    {
        if is_boundary(n, index) {
            data.set(index, value);
        }
        index = index + 1;
    }
}

} // verus!

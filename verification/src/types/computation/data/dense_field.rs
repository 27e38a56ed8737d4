use vstd::prelude::*;
use num_traits::{Float, FloatConst};
use rayon::iter::{IndexedParallelIterator, IntoParallelRefMutIterator, ParallelIterator};
use std::collections::HashSet;

use crate::types::computation::model::ComputationGraph;
use crate::types::computation::ModelError;
use crate::types::geometry::{BoundingBox, Vec3, Vec3i};
use crate::utils::float::{floor, from_usize, product, quotient, sum, to_usize, zero};
use crate::utils::math_helper::{in_grid, index1d_from_index3d, index3d_from_index1d, lemma_linear_index_unique, linear_index};

use super::field_iterator::{
    CellGridIter, CellGridIterator, CellIterator, CellValueIterator, DenseCellValueIterator, GridIterator, PointGridIter,
    PointIterator, ValueIterator,
};
use super::grid::{self, corner_ids, on_boundary, point_at, valid_cell};

verus! {

/// A dense field of values: one value for each point of a uniform grid.
///
/// The grid starts at an origin, has the same spacing on every axis and a number of points
/// per axis. Values are stored in one buffer, `i` running fastest.
#[verifier::reject_recursive_types(T)]
pub struct DenseField<T> {
    origin: Vec3<T>,
    cell_size: T,
    n: Vec3i,
    data: Vec<T>,
    bounds: BoundingBox<T>,
}

/// The coordinates of the grid points along one axis: `origin + size * i` for each
/// position `i` of `count`.
fn axis_coordinates<T: Float>(origin: T, size: T, count: usize) -> (coords: Vec<T>)
    ensures
        coords@.len() == count,
{
    let mut coords: Vec<T> = Vec::new();
    let mut i: usize = 0;
    while i < count
        invariant
            i <= count,
            coords@.len() == i,
        decreases count - i,
    {
        coords.push(sum(origin, product(size, from_usize(i))));
        i = i + 1;
    }
    coords
}

/// The value of a graph at the grid point stored at buffer position `index`, the grid's
/// coordinates along each axis being `xs`, `ys` and `zs`: the point `(xs[i], ys[j], zs[k])`
/// of the position `(i, j, k)` that `index` stores.
pub fn sample_point<T: Float + FloatConst>(
    graph: &ComputationGraph<'_, T>,
    xs: &Vec<T>,
    ys: &Vec<T>,
    zs: &Vec<T>,
    n: Vec3i,
    index: usize,
) -> (value: T)
    requires
        graph.wf(),
        graph.nodes().len() > 0,
        index < n.count(),
        n.count() <= usize::MAX,
        xs@.len() == n.i && ys@.len() == n.j && zs@.len() == n.k,
    ensures
        graph.nodes().last() is Constant ==> value == graph.nodes().last()->Constant_0,
        forall|i: int, j: int, k: int|
            in_grid(i, j, k, n.i as int, n.j as int, n.k as int) && linear_index(i, j, k, n.i as int, n.j as int) == index
                ==> (graph.nodes().last().exact_value(xs@[i], ys@[j], zs@[k]) matches Some(v) ==> value == v),
{
    let (i, j, k) = index3d_from_index1d(index, n.i, n.j, n.k);
    proof {
        assert forall|a: int, b: int, c: int|
            in_grid(a, b, c, n.i as int, n.j as int, n.k as int) && linear_index(a, b, c, n.i as int, n.j as int) == index
            implies a == i && b == j && c == k by {
            lemma_linear_index_unique(a, b, c, i as int, j as int, k as int, n.i as int, n.j as int, n.k as int);
        }
    }
    graph.evaluate_at_coord(xs[i], ys[j], zs[k])
}

/// rayon's `par_iter_mut().enumerate().for_each(..)` over `out`: each position is set, in
/// parallel, to [`sample_point`] of the graph at the same position. The length is kept;
/// of the values, what [`sample_point`] states of each is stated: where the last node of
/// the graph is a constant, every position holds it, and each position holds the graph's
/// exact value, where it has one, at the point of the axes that the position stores.
/// Other values come from floating point and are not stated.
#[verifier::external_body]
fn sample_par<T: Float + FloatConst + Send + Sync>(
    graph: &ComputationGraph<'_, T>,
    xs: &Vec<T>,
    ys: &Vec<T>,
    zs: &Vec<T>,
    n: Vec3i,
    out: &mut Vec<T>,
)
    requires
        graph.wf(),
        graph.nodes().len() > 0,
        old(out)@.len() == n.count(),
        n.count() <= usize::MAX,
        xs@.len() == n.i && ys@.len() == n.j && zs@.len() == n.k,
    ensures
        final(out)@.len() == old(out)@.len(),
        graph.nodes().last() is Constant ==> forall|index: int| 0 <= index < final(out)@.len() ==> #[trigger] final(out)@[index]
            == graph.nodes().last()->Constant_0,
        grid::sampled_on_axes(graph.nodes().last(), final(out)@, n.i as int, n.j as int, n.k as int, xs@, ys@, zs@),
{
    out.par_iter_mut().enumerate().for_each(|(index, value)| *value = sample_point(graph, xs, ys, zs, n, index));
}

/// Whether the buffer position `index` is among `ids`.
fn is_selected(ids: &HashSet<usize>, index: usize) -> (selected: bool)
    ensures
        selected == ids@.contains(index),
{
    proof {
        broadcast use vstd::std_specs::hash::group_hash_axioms;
    }
    ids.contains(&index)
}

/// rayon's `par_iter_mut().enumerate().filter(..).for_each(..)` over `out`: each position
/// that [`is_selected`] keeps is set, in parallel, to [`sample_point`] of the graph at that
/// position; the others are left as they are. The length is kept; of the values set, what
/// [`sample_point`] states of each is stated.
#[verifier::external_body]
fn sample_selected_par<T: Float + FloatConst + Send + Sync>(
    graph: &ComputationGraph<'_, T>,
    xs: &Vec<T>,
    ys: &Vec<T>,
    zs: &Vec<T>,
    n: Vec3i,
    ids: &HashSet<usize>,
    out: &mut Vec<T>,
)
    requires
        graph.wf(),
        graph.nodes().len() > 0,
        old(out)@.len() == n.count(),
        n.count() <= usize::MAX,
        xs@.len() == n.i && ys@.len() == n.j && zs@.len() == n.k,
    ensures
        forall|i: int, j: int, k: int|
            in_grid(i, j, k, n.i as int, n.j as int, n.k as int) && ids@.contains(linear_index(i, j, k, n.i as int, n.j as int) as usize)
                ==> (graph.nodes().last().exact_value(xs@[i], ys@[j], zs@[k]) matches Some(v)
                ==> #[trigger] final(out)@[linear_index(i, j, k, n.i as int, n.j as int)] == v),
        final(out)@.len() == old(out)@.len(),
        forall|index: int| 0 <= index < final(out)@.len() && !ids@.contains(index as usize) ==> #[trigger] final(out)@[index]
            == old(out)@[index],
        graph.nodes().last() is Constant ==> forall|index: int|
            0 <= index < final(out)@.len() && ids@.contains(index as usize) ==> #[trigger] final(out)@[index]
                == graph.nodes().last()->Constant_0,
{
    out.par_iter_mut().enumerate().filter(|(index, _)| is_selected(ids, *index)).for_each(
        |(index, value)| *value = sample_point(graph, xs, ys, zs, n, index),
    );
}

/// The number of points of a grid along an axis of length `length`: the whole cells that
/// fit, plus one. `None` where that count has no `usize`.
fn axis_point_count<T: Float>(length: T, cell_size: T) -> (count: Option<usize>)
    ensures
        count matches Some(c) ==> c >= 1,
{
    match to_usize(floor(quotient(length, cell_size))) {
        Some(c) => c.checked_add(1),
        None => None,
    }
}

/// The box spanned by a grid with this origin, spacing and point counts.
fn grid_bounds<T: Float>(origin: Vec3<T>, cell_size: T, n: Vec3i) -> BoundingBox<T>
    requires
        n.i >= 1 && n.j >= 1 && n.k >= 1,
{
    let size = Vec3::new(
        product(cell_size, from_usize(n.i - 1)),
        product(cell_size, from_usize(n.j - 1)),
        product(cell_size, from_usize(n.k - 1)),
    );
    BoundingBox::new(origin, origin.add_vec(size))
}

impl<T> DenseField<T> {
    /// The buffer holds one value per grid point.
    pub closed spec fn wf(self) -> bool {
        &&& self.data@.len() == self.n.count()
        &&& self.n.count() <= usize::MAX
    }

    /// The values, in buffer order.
    pub closed spec fn values(self) -> Seq<T> {
        self.data@
    }

    /// The number of points per axis.
    pub closed spec fn dims(self) -> Vec3i {
        self.n
    }

    /// The first grid point.
    pub closed spec fn origin_point(self) -> Vec3<T> {
        self.origin
    }

    /// The spacing of the grid.
    pub closed spec fn spacing(self) -> T {
        self.cell_size
    }

    /// The box the grid spans.
    pub closed spec fn extent(self) -> BoundingBox<T> {
        self.bounds
    }

    /// The origin of the field, its first grid point.
    pub fn origin(&self) -> (o: &Vec3<T>)
        ensures
            *o == self.origin_point(),
    {
        &self.origin
    }

    /// The number of points of the field.
    pub fn num_points(&self) -> (count: usize)
        requires
            self.wf(),
        ensures
            count == self.dims().count(),
            count == self.values().len(),
    {
        self.n.product()
    }

    /// The number of cells of the field: one fewer than points along each axis.
    pub fn num_cells(&self) -> (count: usize)
        requires
            self.wf(),
            self.dims().i >= 1 && self.dims().j >= 1 && self.dims().k >= 1,
        ensures
            count == (self.dims().i - 1) * (self.dims().j - 1) * (self.dims().k - 1),
    {
        proof {
            let (a, b, c) = (self.n.i as int, self.n.j as int, self.n.k as int);
            assert((a - 1) * (b - 1) <= a * b) by (nonlinear_arith)
                requires
                    a >= 1,
                    b >= 1,
            ;
            assert((a - 1) * (b - 1) * (c - 1) <= a * b * c) by (nonlinear_arith)
                requires
                    a >= 1,
                    b >= 1,
                    c >= 1,
            ;
            assert(0 <= (a - 1) * (b - 1)) by (nonlinear_arith)
                requires
                    a >= 1,
                    b >= 1,
            ;
            assert((a - 1) * (b - 1) <= (a - 1) * (b - 1) * (c - 1) || c == 1) by (nonlinear_arith)
                requires
                    a >= 1,
                    b >= 1,
                    c >= 1,
            ;
            if c == 1 {
                assert((a - 1) * (b - 1) * (c - 1) == 0) by (nonlinear_arith)
                    requires
                        c == 1,
                ;
            }
        }
        if self.n.k == 1 {
            0
        } else {
            (self.n.i - 1) * (self.n.j - 1) * (self.n.k - 1)
        }
    }

    /// The values of the field, in buffer order.
    pub fn data(&self) -> (values: &[T])
        ensures
            values@ == self.values(),
    {
        self.data.as_slice()
    }

    /// The buffer positions of the eight corners of a cell.
    pub(crate) fn cell_ids(&self, i: usize, j: usize, k: usize) -> (ids: [usize; 8])
        requires
            self.wf(),
            valid_cell(self.dims(), i as int, j as int, k as int),
        ensures
            forall|m: int| 0 <= m < 8 ==> ids@[m] == corner_ids(self.dims(), i as int, j as int, k as int)[m],
    {
        grid::cell_ids(self.n, i, j, k)
    }

    /// The buffer position of grid point `(i, j, k)`.
    pub fn point_index1d(&self, i: usize, j: usize, k: usize) -> (index: usize)
        requires
            self.wf(),
            in_grid(i as int, j as int, k as int, self.dims().i as int, self.dims().j as int, self.dims().k as int),
        ensures
            index == point_at(self.dims(), i as int, j as int, k as int),
            index < self.values().len(),
    {
        index1d_from_index3d(i, j, k, self.n.i, self.n.j, self.n.k)
    }

    /// The grid point stored at buffer position `index`.
    pub fn point_index3d(&self, index: usize) -> (ijk: (usize, usize, usize))
        requires
            self.wf(),
            index < self.values().len(),
        ensures
            in_grid(ijk.0 as int, ijk.1 as int, ijk.2 as int, self.dims().i as int, self.dims().j as int, self.dims().k as int),
            point_at(self.dims(), ijk.0 as int, ijk.1 as int, ijk.2 as int) == index,
    {
        index3d_from_index1d(index, self.n.i, self.n.j, self.n.k)
    }

    /// The position of cell `(i, j, k)` among the cells, `i` running fastest.
    pub fn cell_index1d(&self, i: usize, j: usize, k: usize) -> (index: usize)
        requires
            self.wf(),
            valid_cell(self.dims(), i as int, j as int, k as int),
        ensures
            index == linear_index(i as int, j as int, k as int, self.dims().i - 1, self.dims().j - 1),
    {
        proof {
            self.lemma_cells_fit();
        }
        index1d_from_index3d(i, j, k, self.n.i - 1, self.n.j - 1, self.n.k - 1)
    }

    /// The cell at position `index` among the cells.
    pub fn cell_index3d(&self, index: usize) -> (ijk: (usize, usize, usize))
        requires
            self.wf(),
            self.dims().i >= 1 && self.dims().j >= 1 && self.dims().k >= 1,
            index < (self.dims().i - 1) * (self.dims().j - 1) * (self.dims().k - 1),
        ensures
            valid_cell(self.dims(), ijk.0 as int, ijk.1 as int, ijk.2 as int),
            linear_index(ijk.0 as int, ijk.1 as int, ijk.2 as int, self.dims().i - 1, self.dims().j - 1) == index,
    {
        proof {
            self.lemma_cells_fit();
        }
        index3d_from_index1d(index, self.n.i - 1, self.n.j - 1, self.n.k - 1)
    }

    /// There are no more cells than points.
    proof fn lemma_cells_fit(self)
        requires
            self.n.i >= 1 && self.n.j >= 1 && self.n.k >= 1,
            self.n.count() <= usize::MAX,
        ensures
            (self.n.i - 1) * (self.n.j - 1) * (self.n.k - 1) <= usize::MAX,
    {
        let (a, b, c) = (self.n.i as int, self.n.j as int, self.n.k as int);
        assert((a - 1) * (b - 1) * (c - 1) <= a * b * c) by (nonlinear_arith)
            requires
                a >= 1,
                b >= 1,
                c >= 1,
        ;
    }

    /// Set the value at buffer position `index`.
    pub fn set_value(&mut self, index: usize, value: T)
        requires
            old(self).wf(),
            index < old(self).values().len(),
        ensures
            final(self).wf(),
            final(self).values() == old(self).values().update(index as int, value),
            final(self).dims() == old(self).dims(),
            final(self).origin_point() == old(self).origin_point(),
            final(self).spacing() == old(self).spacing(),
            final(self).extent() == old(self).extent(),
    {
        self.data.set(index, value);
    }
}

impl<T: Float> DenseField<T> {
    /// Create a field of zeros with this origin, spacing and number of points per axis.
    pub fn new(origin: Vec3<T>, cell_size: T, num_pts: Vec3i) -> (field: Self)
        requires
            num_pts.i >= 1 && num_pts.j >= 1 && num_pts.k >= 1,
            num_pts.count() <= usize::MAX,
        ensures
            field.wf(),
            field.dims() == num_pts,
            field.origin_point() == origin,
            field.spacing() == cell_size,
            field.values().len() == num_pts.count(),
            exists|z: T| #[trigger] grid::all_equal(field.values(), z),
    {
        let count = num_pts.product();
        let z: T = zero();
        let mut data: Vec<T> = Vec::new();
        let mut index: usize = 0;
        while index < count
            invariant
                index <= count,
                data@.len() == index,
                forall|m: int| 0 <= m < index ==> #[trigger] data@[m] == z,
            decreases count - index,
        {
            data.push(z);
            index = index + 1;
        }
        let bounds = grid_bounds(origin, cell_size, num_pts);
        let field = DenseField { origin, cell_size, n: num_pts, data, bounds };
        assert(grid::all_equal(field.values(), z));
        field
    }

    /// The number of points per axis of a grid of this spacing over a box: the whole
    /// cells that fit along each axis, plus one. `None` where a count has no `usize`,
    /// such as for a box of negative size.
    pub fn point_count(bounds: &BoundingBox<T>, cell_size: T) -> (counts: Option<Vec3i>)
        ensures
            counts matches Some(c) ==> c.i >= 1 && c.j >= 1 && c.k >= 1,
    {
        let (x_dim, y_dim, z_dim) = bounds.dimensions();
        let i = match axis_point_count(x_dim, cell_size) {
            Some(c) => c,
            None => {
                return None;
            },
        };
        let j = match axis_point_count(y_dim, cell_size) {
            Some(c) => c,
            None => {
                return None;
            },
        };
        let k = match axis_point_count(z_dim, cell_size) {
            Some(c) => c,
            None => {
                return None;
            },
        };
        Some(Vec3i::new(i, j, k))
    }

    /// Create a field of zeros over a box with this spacing, its origin at the box
    /// minimum. `None` where the point counts cannot be had (see
    /// [`DenseField::point_count`]) or their product has no `usize`.
    pub fn from_bounds(bounds: &BoundingBox<T>, cell_size: T) -> (field: Option<Self>)
        ensures
            field matches Some(f) ==> f.wf() && f.origin_point() == bounds.min && f.spacing() == cell_size,
    {
        let counts = match Self::point_count(bounds, cell_size) {
            Some(c) => c,
            None => {
                return None;
            },
        };
        match counts.checked_product() {
            Some(_) => Some(Self::new(bounds.min, cell_size, counts)),
            None => None,
        }
    }

    /// Create a field from a buffer of values, one per grid point.
    ///
    /// Fails with [`ModelError::Custom`] when the buffer length differs from the number of
    /// points.
    pub fn from_data(origin: Vec3<T>, cell_size: T, num_pts: Vec3i, data: Vec<T>) -> (r: Result<Self, ModelError>)
        requires
            num_pts.i >= 1 && num_pts.j >= 1 && num_pts.k >= 1,
        ensures
            r is Ok <==> num_pts.count() == data@.len(),
            match r {
                Ok(field) => field.wf() && field.values() == data@ && field.dims() == num_pts && field.origin_point() == origin
                    && field.spacing() == cell_size,
                Err(e) => e is Custom,
            },
    {
        let len = data.len();
        let matches = match num_pts.checked_product() {
            Some(count) => count == len,
            None => false,
        };
        if !matches {
            return Err(
                ModelError::Custom(
                    String::from_str("Failed to generate field from data. Point count and data length must match"),
                ),
            );
        }
        let bounds = grid_bounds(origin, cell_size, num_pts);
        Ok(DenseField { origin, cell_size, n: num_pts, data, bounds })
    }

    /// The spacing of the grid.
    pub fn cell_size(&self) -> (size: T)
        ensures
            size == self.spacing(),
    {
        self.cell_size
    }

    /// A copy of the values, in buffer order.
    pub fn copy_data(&self) -> (copy: Vec<T>)
        ensures
            copy@ == self.values(),
    {
        let mut copy: Vec<T> = Vec::new();
        let mut index: usize = 0;
        while index < self.data.len()
            invariant
                index <= self.data@.len(),
                copy@ == self.data@.subrange(0, index as int),
            decreases self.data@.len() - index,
        {
            copy.push(self.data[index]);
            index = index + 1;
            assert(copy@ =~= self.data@.subrange(0, index as int));
        }
        assert(copy@ =~= self.data@);
        copy
    }

    /// The locations of the corners of cell `(i, j, k)`, in the order of the cell ids.
    pub fn cell_corners(&self, i: usize, j: usize, k: usize) -> (corners: [Vec3<T>; 8])
        ensures
            corners@ == grid::box_corner_points(corners[0], corners[6]),
    {
        grid::cell_corners(self.origin, self.cell_size, i, j, k)
    }

    /// The values at the corners of cell `(i, j, k)`.
    pub fn cell_values(&self, i: usize, j: usize, k: usize) -> (values: [T; 8])
        requires
            self.wf(),
            valid_cell(self.dims(), i as int, j as int, k as int),
        ensures
            forall|m: int| 0 <= m < 8 ==> values@[m] == self.values()[corner_ids(self.dims(), i as int, j as int, k as int)[m]],
    {
        grid::cell_values(self.data.as_slice(), self.n, i, j, k)
    }

    /// Set every value whose magnitude is below `limit` to zero.
    pub fn threshold(&mut self, limit: T)
        requires
            old(self).wf(),
        ensures
            final(self).wf(),
            final(self).dims() == old(self).dims(),
            final(self).origin_point() == old(self).origin_point(),
            final(self).spacing() == old(self).spacing(),
            exists|z: T| #[trigger] grid::kept_or_set(old(self).values(), final(self).values(), z),
    {
        grid::threshold(&mut self.data, limit);
        proof {
            let z = choose|z: T| #[trigger] grid::kept_or_set(old(self).data@, self.data@, z);
            assert(grid::kept_or_set(old(self).values(), self.values(), z));
        }
    }

    /// Laplacian smoothing over `iterations` passes: each point takes the interpolation by
    /// `factor` between its value and the average of its six neighbours. Points on the
    /// faces of the grid keep their value.
    pub fn smooth(&mut self, factor: T, iterations: u32)
        requires
            old(self).wf(),
        ensures
            final(self).wf(),
            final(self).dims() == old(self).dims(),
            final(self).origin_point() == old(self).origin_point(),
            final(self).spacing() == old(self).spacing(),
            final(self).values().len() == old(self).values().len(),
            forall|index: int| 0 <= index < old(self).values().len() && on_boundary(old(self).dims(), index)
                ==> final(self).values()[index] == old(self).values()[index],
            iterations == 0 ==> final(self).values() == old(self).values(),
    {
        grid::smooth(&mut self.data, self.n, factor, iterations);
    }

    /// Set every point on a face of the grid to `padding_value`, to close open edges of a
    /// solid at the bounds.
    pub fn padding(&mut self, padding_value: T)
        requires
            old(self).wf(),
        ensures
            final(self).wf(),
            final(self).dims() == old(self).dims(),
            final(self).origin_point() == old(self).origin_point(),
            final(self).spacing() == old(self).spacing(),
            final(self).values().len() == old(self).values().len(),
            forall|index: int| 0 <= index < old(self).values().len() ==> #[trigger] final(self).values()[index] == if on_boundary(
                old(self).dims(),
                index,
            ) {
                padding_value
            } else {
                old(self).values()[index]
            },
    {
        grid::padding(&mut self.data, self.n, padding_value);
    }
}

impl<T: Float + Send + Sync> DenseField<T> {
    /// [`DenseField::smooth`], the points of each pass computed in parallel.
    pub fn smooth_par(&mut self, factor: T, iterations: u32)
        requires
            old(self).wf(),
        ensures
            final(self).wf(),
            final(self).dims() == old(self).dims(),
            final(self).origin_point() == old(self).origin_point(),
            final(self).spacing() == old(self).spacing(),
            final(self).values().len() == old(self).values().len(),
            forall|index: int| 0 <= index < old(self).values().len() && on_boundary(old(self).dims(), index)
                ==> final(self).values()[index] == old(self).values()[index],
            iterations == 0 ==> final(self).values() == old(self).values(),
    {
        grid::smooth_par(&mut self.data, self.n, factor, iterations);
    }
}

impl<T: Float + FloatConst + Send + Sync> DenseField<T> {
    /// Evaluate a computation graph at every grid point, in parallel, and store the
    /// values.
    pub fn sample_from_graph(&mut self, graph: &ComputationGraph<'_, T>)
        requires
            old(self).wf(),
            graph.wf(),
            graph.nodes().len() > 0,
        ensures
            final(self).wf(),
            final(self).dims() == old(self).dims(),
            final(self).origin_point() == old(self).origin_point(),
            final(self).spacing() == old(self).spacing(),
            final(self).values().len() == old(self).values().len(),
            graph.nodes().last() is Constant ==> forall|index: int| 0 <= index < final(self).values().len()
                ==> #[trigger] final(self).values()[index] == graph.nodes().last()->Constant_0,
            grid::sampled_on_grid(
                graph.nodes().last(),
                final(self).values(),
                final(self).dims().i as int,
                final(self).dims().j as int,
                final(self).dims().k as int,
            ),
    {
        let xs = axis_coordinates(self.origin.x, self.cell_size, self.n.i);
        let ys = axis_coordinates(self.origin.y, self.cell_size, self.n.j);
        let zs = axis_coordinates(self.origin.z, self.cell_size, self.n.k);
        sample_par(graph, &xs, &ys, &zs, self.n, &mut self.data);
        assert(grid::sampled_on_axes(graph.nodes().last(), self.data@, self.n.i as int, self.n.j as int, self.n.k as int, xs@, ys@, zs@));
    }
}

impl<T: Float + FloatConst + Send + Sync> DenseField<T> {
    /// Evaluate a computation graph at the grid points whose buffer positions are in
    /// `ids`, in parallel, and store the values; the other values are kept.
    pub fn sample_selected_from_graph(&mut self, graph: &ComputationGraph<'_, T>, ids: &HashSet<usize>)
        requires
            old(self).wf(),
            graph.wf(),
            graph.nodes().len() > 0,
        ensures
            final(self).wf(),
            final(self).dims() == old(self).dims(),
            final(self).origin_point() == old(self).origin_point(),
            final(self).spacing() == old(self).spacing(),
            final(self).values().len() == old(self).values().len(),
            forall|index: int| 0 <= index < old(self).values().len() && !ids@.contains(index as usize)
                ==> #[trigger] final(self).values()[index] == old(self).values()[index],
            graph.nodes().last() is Constant ==> forall|index: int|
                0 <= index < final(self).values().len() && ids@.contains(index as usize)
                    ==> #[trigger] final(self).values()[index] == graph.nodes().last()->Constant_0,
    {
        let xs = axis_coordinates(self.origin.x, self.cell_size, self.n.i);
        let ys = axis_coordinates(self.origin.y, self.cell_size, self.n.j);
        let zs = axis_coordinates(self.origin.z, self.cell_size, self.n.k);
        sample_selected_par(graph, &xs, &ys, &zs, self.n, ids, &mut self.data);
    }
}

impl<T: Copy> ValueIterator<T> for DenseField<T> {
    /// The values, in buffer order.
    fn iter_values(&self) -> (values: Vec<T>)
        ensures
            values@ == self.values(),
    {
        let mut copy: Vec<T> = Vec::new();
        let mut index: usize = 0;
        while index < self.data.len()
            invariant
                index <= self.data@.len(),
                copy@ == self.data@.subrange(0, index as int),
            decreases self.data@.len() - index,
        {
            copy.push(self.data[index]);
            index = index + 1;
            assert(copy@ =~= self.data@.subrange(0, index as int));
        }
        assert(copy@ =~= self.data@);
        copy
    }
}

impl<T> PointIterator<T> for DenseField<T> {
    /// The grid point locations, `i` running fastest.
    fn iter_points(&self) -> (points: Vec<Vec3<T>>) where T: Float
        ensures
            self.dims().i >= 1 && self.dims().j >= 1 ==> points@.len() == self.dims().count(),
    {
        self.iter_grid()
    }
}

impl<T> GridIterator<T> for DenseField<T> {
    /// The grid point locations, `i` running fastest.
    fn iter_grid(&self) -> (points: Vec<Vec3<T>>) where T: Float
        ensures
            self.dims().i >= 1 && self.dims().j >= 1 ==> points@.len() == self.dims().count(),
    {
        if self.n.k > 0 && (self.n.i == 0 || self.n.j == 0) {
            return Vec::new();
        }
        PointGridIter::new(self.bounds, self.n.to_tuple()).collect()
    }
}

impl<T> CellIterator<T> for DenseField<T> {
    /// The cells of the grid, `i` running fastest.
    fn iter_cells(&self) -> (cells: Vec<BoundingBox<T>>) where T: Float
        ensures
            self.dims().i >= 2 && self.dims().j >= 2 && self.dims().k >= 1 ==> cells@.len() == (self.dims().i - 1) * (
            self.dims().j - 1) * (self.dims().k - 1),
    {
        self.iter_cell_grid()
    }
}

impl<T> CellGridIterator<T> for DenseField<T> {
    /// The cells of the grid, `i` running fastest. A grid without points on an axis has
    /// none.
    fn iter_cell_grid(&self) -> (cells: Vec<BoundingBox<T>>) where T: Float
        ensures
            self.dims().i >= 2 && self.dims().j >= 2 && self.dims().k >= 1 ==> cells@.len() == (self.dims().i - 1) * (
            self.dims().j - 1) * (self.dims().k - 1),
    {
        if self.n.i == 0 || self.n.j == 0 || self.n.k == 0 {
            return Vec::new();
        }
        CellGridIter::new(self.bounds, (self.n.i - 1, self.n.j - 1, self.n.k - 1)).collect()
    }
}

impl<T: Copy> CellValueIterator<T> for DenseField<T> {
    /// For each cell, `i` running fastest, the values at its eight corners. A grid with
    /// cells needs two points on every axis; one without has none.
    fn iter_cell_values(&self) -> (all: Vec<[T; 8]>)
        ensures
            self.wf() && self.dims().i >= 2 && self.dims().j >= 2 && self.dims().k >= 2 ==> all@.len() == (self.dims().i - 1) * (
            self.dims().j - 1) * (self.dims().k - 1),
    {
        if self.n.i < 2 || self.n.j < 2 || self.n.k < 2 {
            return Vec::new();
        }
        match self.n.checked_product() {
            Some(count) => {
                if count != self.data.len() {
                    return Vec::new();
                }
            },
            None => {
                return Vec::new();
            },
        }
        DenseCellValueIterator::new(self.data.as_slice(), self.n.to_tuple()).collect()
    }
}

} // verus!

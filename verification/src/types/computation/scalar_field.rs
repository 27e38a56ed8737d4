use vstd::prelude::*;
use num_traits::Float;

use crate::types::geometry::{Vec3, Vec3i};
use crate::utils::float::zero;
use crate::utils::math_helper::{in_grid, index1d_from_index3d, index3d_from_index1d, linear_index};

use super::data::grid::{self, corner_ids, on_boundary, point_at, valid_cell};

verus! {

/// A 3-dimensional field of scalar values: one value for each point of a uniform grid
/// with an origin, one spacing for every axis and a number of points per axis. Values are
/// stored in one buffer, `i` running fastest.
#[verifier::reject_recursive_types(T)]
pub struct ScalarField<T> {
    origin: Vec3<T>,
    cell_size: T,
    n: Vec3i,
    data: Vec<T>,
}

impl<T> ScalarField<T> {
    /// The buffer holds one value per grid point.
    pub closed spec fn wf(self) -> bool {
        &&& self.data@.len() == self.n.count()
        &&& self.n.count() <= usize::MAX
    }

    /// The values, in buffer order.
    pub closed spec fn values(self) -> Seq<T> {
        self.data@
    }

    /// The number of points per axis.
    pub closed spec fn dims(self) -> Vec3i {
        self.n
    }

    /// The first grid point.
    pub closed spec fn origin_point(self) -> Vec3<T> {
        self.origin
    }

    /// The spacing of the grid.
    pub closed spec fn spacing(self) -> T {
        self.cell_size
    }

    /// Create a field from a buffer of values, one per grid point: the buffer length must
    /// be the number of points.
    pub fn with_data(origin: Vec3<T>, cell_size: T, num_pts: Vec3i, data: Vec<T>) -> (field: Self)
        requires
            num_pts.count() == data@.len(),
        ensures
            field.wf(),
            field.values() == data@,
            field.dims() == num_pts,
            field.origin_point() == origin,
            field.spacing() == cell_size,
    {
        let _len = data.len();
        ScalarField { origin, cell_size, n: num_pts, data }
    }

    /// The origin of the field, its first grid point.
    pub fn origin(&self) -> (o: &Vec3<T>)
        ensures
            *o == self.origin_point(),
    {
        &self.origin
    }

    /// The number of points of the field.
    pub fn num_points(&self) -> (count: usize)
        requires
            self.wf(),
        ensures
            count == self.dims().count(),
            count == self.values().len(),
    {
        self.n.product()
    }

    /// The number of cells of the field: one fewer than points along each axis.
    pub fn num_cells(&self) -> (count: usize)
        requires
            self.wf(),
            self.dims().i >= 1 && self.dims().j >= 1 && self.dims().k >= 1,
        ensures
            count == (self.dims().i - 1) * (self.dims().j - 1) * (self.dims().k - 1),
    {
        proof {
            let (a, b, c) = (self.n.i as int, self.n.j as int, self.n.k as int);
            assert((a - 1) * (b - 1) * (c - 1) <= a * b * c) by (nonlinear_arith)
                requires
                    a >= 1,
                    b >= 1,
                    c >= 1,
            ;
            assert(0 <= (a - 1) * (b - 1)) by (nonlinear_arith)
                requires
                    a >= 1,
                    b >= 1,
            ;
            assert((a - 1) * (b - 1) <= (a - 1) * (b - 1) * (c - 1) || c == 1) by (nonlinear_arith)
                requires
                    a >= 1,
                    b >= 1,
                    c >= 1,
            ;
            if c == 1 {
                assert((a - 1) * (b - 1) * (c - 1) == 0) by (nonlinear_arith)
                    requires
                        c == 1,
                ;
            }
        }
        if self.n.k == 1 {
            0
        } else {
            (self.n.i - 1) * (self.n.j - 1) * (self.n.k - 1)
        }
    }

    /// The values of the field, in buffer order.
    pub fn data(&self) -> (values: &[T])
        ensures
            values@ == self.values(),
    {
        self.data.as_slice()
    }

    /// The buffer positions of the eight corners of a cell.
    fn cell_ids(&self, i: usize, j: usize, k: usize) -> (ids: [usize; 8])
        requires
            self.wf(),
            valid_cell(self.dims(), i as int, j as int, k as int),
        ensures
            forall|m: int| 0 <= m < 8 ==> ids@[m] == corner_ids(self.dims(), i as int, j as int, k as int)[m],
    {
        grid::cell_ids(self.n, i, j, k)
    }

    /// The buffer position of grid point `(i, j, k)`.
    pub fn point_index1d(&self, i: usize, j: usize, k: usize) -> (index: usize)
        requires
            self.wf(),
            in_grid(i as int, j as int, k as int, self.dims().i as int, self.dims().j as int, self.dims().k as int),
        ensures
            index == point_at(self.dims(), i as int, j as int, k as int),
            index < self.values().len(),
    {
        index1d_from_index3d(i, j, k, self.n.i, self.n.j, self.n.k)
    }

    /// The grid point stored at buffer position `index`.
    pub fn point_index3d(&self, index: usize) -> (ijk: (usize, usize, usize))
        requires
            self.wf(),
            index < self.values().len(),
        ensures
            in_grid(ijk.0 as int, ijk.1 as int, ijk.2 as int, self.dims().i as int, self.dims().j as int, self.dims().k as int),
            point_at(self.dims(), ijk.0 as int, ijk.1 as int, ijk.2 as int) == index,
    {
        index3d_from_index1d(index, self.n.i, self.n.j, self.n.k)
    }

    /// The cell at position `index` among the cells, `i` running fastest.
    pub fn cell_index3d(&self, index: usize) -> (ijk: (usize, usize, usize))
        requires
            self.wf(),
            self.dims().i >= 1 && self.dims().j >= 1 && self.dims().k >= 1,
            index < (self.dims().i - 1) * (self.dims().j - 1) * (self.dims().k - 1),
        ensures
            valid_cell(self.dims(), ijk.0 as int, ijk.1 as int, ijk.2 as int),
            linear_index(ijk.0 as int, ijk.1 as int, ijk.2 as int, self.dims().i - 1, self.dims().j - 1) == index,
    {
        proof {
            let (a, b, c) = (self.n.i as int, self.n.j as int, self.n.k as int);
            assert((a - 1) * (b - 1) * (c - 1) <= a * b * c) by (nonlinear_arith)
                requires
                    a >= 1,
                    b >= 1,
                    c >= 1,
            ;
        }
        index3d_from_index1d(index, self.n.i - 1, self.n.j - 1, self.n.k - 1)
    }
}

impl<T: Float> ScalarField<T> {
    /// Create a field of zeros with this origin, spacing and number of points per axis.
    pub fn new(origin: Vec3<T>, cell_size: T, num_pts: Vec3i) -> (field: Self)
        requires
            num_pts.count() <= usize::MAX,
        ensures
            field.wf(),
            field.dims() == num_pts,
            field.origin_point() == origin,
            field.spacing() == cell_size,
            exists|z: T| #[trigger] grid::all_equal(field.values(), z),
    {
        let count = num_pts.product();
        let z: T = zero();
        let mut data: Vec<T> = Vec::new();
        let mut index: usize = 0;
        while index < count
            invariant
                index <= count,
                data@.len() == index,
                forall|m: int| 0 <= m < index ==> #[trigger] data@[m] == z,
            decreases count - index,
        {
            data.push(z);
            index = index + 1;
        }
        let field = ScalarField { origin, cell_size, n: num_pts, data };
        assert(grid::all_equal(field.values(), z));
        field
    }

    /// The spacing of the grid.
    pub fn cell_size(&self) -> (size: T)
        ensures
            size == self.spacing(),
    {
        self.cell_size
    }

    /// A copy of the values, in buffer order.
    pub fn copy_data(&self) -> (copy: Vec<T>)
        ensures
            copy@ == self.values(),
    {
        let mut copy: Vec<T> = Vec::new();
        let mut index: usize = 0;
        while index < self.data.len()
            invariant
                index <= self.data@.len(),
                copy@ == self.data@.subrange(0, index as int),
            decreases self.data@.len() - index,
        {
            copy.push(self.data[index]);
            index = index + 1;
            assert(copy@ =~= self.data@.subrange(0, index as int));
        }
        assert(copy@ =~= self.data@);
        copy
    }

    /// The locations of the corners of cell `(i, j, k)`, in the order of the cell ids.
    pub fn cell_corners(&self, i: usize, j: usize, k: usize) -> (corners: [Vec3<T>; 8])
        ensures
            corners@ == grid::box_corner_points(corners[0], corners[6]),
    {
        grid::cell_corners(self.origin, self.cell_size, i, j, k)
    }

    /// The values at the corners of cell `(i, j, k)`.
    pub fn cell_values(&self, i: usize, j: usize, k: usize) -> (values: [T; 8])
        requires
            self.wf(),
            valid_cell(self.dims(), i as int, j as int, k as int),
        ensures
            forall|m: int| 0 <= m < 8 ==> values@[m] == self.values()[corner_ids(self.dims(), i as int, j as int, k as int)[m]],
    {
        grid::cell_values(self.data.as_slice(), self.n, i, j, k)
    }

    /// Set every value whose magnitude is below `limit` to zero.
    pub fn threshold(&mut self, limit: T)
        requires
            old(self).wf(),
        ensures
            final(self).wf(),
            final(self).dims() == old(self).dims(),
            final(self).origin_point() == old(self).origin_point(),
            final(self).spacing() == old(self).spacing(),
            exists|z: T| #[trigger] grid::kept_or_set(old(self).values(), final(self).values(), z),
    {
        grid::threshold(&mut self.data, limit);
        proof {
            let z = choose|z: T| #[trigger] grid::kept_or_set(old(self).data@, self.data@, z);
            assert(grid::kept_or_set(old(self).values(), self.values(), z));
        }
    }

    /// Laplacian smoothing over `iterations` passes: each point takes the interpolation by
    /// `factor` between its value and the average of its six neighbours. Points on the
    /// faces of the grid keep their value.
    pub fn smooth(&mut self, factor: T, iterations: u32)
        requires
            old(self).wf(),
        ensures
            final(self).wf(),
            final(self).dims() == old(self).dims(),
            final(self).origin_point() == old(self).origin_point(),
            final(self).spacing() == old(self).spacing(),
            forall|index: int| 0 <= index < old(self).values().len() && on_boundary(old(self).dims(), index)
                ==> final(self).values()[index] == old(self).values()[index],
            iterations == 0 ==> final(self).values() == old(self).values(),
    {
        grid::smooth(&mut self.data, self.n, factor, iterations);
    }
}

impl<T: Float + Send + Sync> ScalarField<T> {
    /// [`ScalarField::smooth`], the points of each pass computed in parallel.
    pub fn smooth_par(&mut self, factor: T, iterations: u32)
        requires
            old(self).wf(),
        ensures
            final(self).wf(),
            final(self).dims() == old(self).dims(),
            final(self).origin_point() == old(self).origin_point(),
            final(self).spacing() == old(self).spacing(),
            forall|index: int| 0 <= index < old(self).values().len() && on_boundary(old(self).dims(), index)
                ==> final(self).values()[index] == old(self).values()[index],
            iterations == 0 ==> final(self).values() == old(self).values(),
    {
        grid::smooth_par(&mut self.data, self.n, factor, iterations);
    }
}

} // verus!

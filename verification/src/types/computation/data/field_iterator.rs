use vstd::prelude::*;
use num_traits::Float;

use crate::types::geometry::{BoundingBox, Vec3};
use crate::utils::float::{from_usize, product, quotient, sum};

use super::grid::{cell_values, corner_ids, valid_cell};
use crate::types::geometry::Vec3i;

verus! {

/// Access to every value of a field, in buffer order.
pub trait ValueIterator<T> {
    /// The values of the field.
    fn iter_values(&self) -> Vec<T>;
}

/// Access to the location of every point of a field.
pub trait PointIterator<T> {
    /// The point locations of the field.
    fn iter_points(&self) -> Vec<Vec3<T>> where T: Float;
}

/// Access to the points of a field laid out on a grid.
pub trait GridIterator<T>: PointIterator<T> {
    /// The grid point locations, `i` running fastest.
    fn iter_grid(&self) -> Vec<Vec3<T>> where T: Float;
}

/// Access to the corner values of every cell of a field.
pub trait CellValueIterator<T> {
    /// For each cell, the values at its eight corners.
    fn iter_cell_values(&self) -> Vec<[T; 8]>;
}

/// Access to the bounds of every cell of a field.
pub trait CellIterator<T> {
    /// The cells of the field.
    fn iter_cells(&self) -> Vec<BoundingBox<T>> where T: Float;
}

/// Access to the cells of a field laid out on a grid.
pub trait CellGridIterator<T>: CellIterator<T> {
    /// The grid cells, `i` running fastest.
    fn iter_cell_grid(&self) -> Vec<BoundingBox<T>> where T: Float;
}

/// The position that follows `c` when walking a grid of `nx * ny` positions per layer,
/// `i` fastest.
pub open spec fn step(c: (usize, usize, usize), nx: usize, ny: usize) -> (usize, usize, usize) {
    if c.0 + 1 < nx {
        ((c.0 + 1) as usize, c.1, c.2)
    } else if c.1 + 1 < ny {
        (0, (c.1 + 1) as usize, c.2)
    } else {
        (0, 0, (c.2 + 1) as usize)
    }
}

/// The number of positions walked before `c`.
pub open spec fn walked(c: (usize, usize, usize), nx: usize, ny: usize) -> int {
    c.2 * nx * ny + c.1 * nx + c.0
}

/// `c` is a position of the walk: inside a layer, or the end, just past the last layer.
pub open spec fn in_walk(c: (usize, usize, usize), n: (usize, usize, usize)) -> bool {
    &&& c.2 <= n.2
    &&& c.2 < n.2 ==> (c.0 < n.0 || c.0 == 0) && (c.1 < n.1 || c.1 == 0)
    &&& c.2 == n.2 ==> c.0 == 0 && c.1 == 0
}

/// The end of a walk is the position after every position of the grid.
proof fn lemma_walk_end(c: (usize, usize, usize), n: (usize, usize, usize))
    requires
        in_walk(c, n),
        c.2 >= n.2,
    ensures
        walked(c, n.0, n.1) == n.0 * n.1 * n.2,
{
    assert(c.2 * n.0 * n.1 == n.0 * n.1 * n.2) by (nonlinear_arith)
        requires
            c.2 == n.2,
    ;
}

/// The start of a walk has walked nothing.
proof fn lemma_walk_start(n: (usize, usize, usize))
    ensures
        walked((0usize, 0usize, 0usize), n.0, n.1) == 0,
{
    assert(0 * n.0 * n.1 == 0) by (nonlinear_arith);
    assert(0 * n.0 == 0) by (nonlinear_arith);
}

/// Move to the next position of the walk.
fn advance(c: (usize, usize, usize), n: (usize, usize, usize)) -> (next: (usize, usize, usize))
    requires
        in_walk(c, n),
        c.2 < n.2,
    ensures
        next == step(c, n.0, n.1),
        in_walk(next, n),
        n.0 >= 1 && n.1 >= 1 ==> walked(next, n.0, n.1) == walked(c, n.0, n.1) + 1,
{
    let ghost (nx, ny) = (n.0 as int, n.1 as int);
    proof {
        let (i, j, k) = (c.0 as int, c.1 as int, c.2 as int);
        if nx >= 1 && ny >= 1 {
            assert((j + 1) * nx == j * nx + nx) by (nonlinear_arith);
            assert((k + 1) * nx * ny == k * nx * ny + nx * ny) by (nonlinear_arith);
            assert((ny - 1) * nx == ny * nx - nx) by (nonlinear_arith);
            assert(ny * nx == nx * ny) by (nonlinear_arith);
        }
    }
    if c.0 + 1 < n.0 {
        (c.0 + 1, c.1, c.2)
    } else if c.1 + 1 < n.1 {
        (0, c.1 + 1, c.2)
    } else {
        (0, 0, c.2 + 1)
    }
}

/// Walks the points of a grid spanning a box, `i` running fastest: `point_counts` points
/// per axis, the first at the box minimum and the last at its maximum.
pub struct PointGridIter<T> {
    bounds: BoundingBox<T>,
    current: (usize, usize, usize),
    point_counts: (usize, usize, usize),
}

impl<T> PointGridIter<T> {
    /// The position of the next point.
    pub closed spec fn position(self) -> (usize, usize, usize) {
        self.current
    }

    /// The number of points per axis.
    pub closed spec fn counts(self) -> (usize, usize, usize) {
        self.point_counts
    }

    /// The walk is in range; a grid with points has at least one per axis.
    pub open spec fn wf(self) -> bool {
        &&& in_walk(self.position(), self.counts())
        &&& self.counts().2 > 0 ==> self.counts().0 >= 1 && self.counts().1 >= 1
    }

    /// The number of points left to walk.
    pub open spec fn remaining(self) -> int {
        self.counts().0 * self.counts().1 * self.counts().2 - walked(self.position(), self.counts().0, self.counts().1)
    }

    /// Start a walk over the points of a grid spanning `bounds`.
    pub fn new(bounds: BoundingBox<T>, point_count: (usize, usize, usize)) -> (iter: Self)
        requires
            point_count.2 > 0 ==> point_count.0 >= 1 && point_count.1 >= 1,
        ensures
            iter.wf(),
            iter.position() == (0usize, 0usize, 0usize),
            iter.counts() == point_count,
            iter.remaining() == point_count.0 * point_count.1 * point_count.2,
    {
        proof {
            lemma_walk_start(point_count);
        }
        Self { bounds, current: (0, 0, 0), point_counts: point_count }
    }
}

impl<T: Float> PointGridIter<T> {
    /// The location of the next point, or `None` once every point was walked.
    pub fn next(&mut self) -> (point: Option<Vec3<T>>)
        requires
            old(self).wf(),
        ensures
            final(self).wf(),
            final(self).counts() == old(self).counts(),
            point is Some <==> old(self).position().2 < old(self).counts().2,
            point is Some ==> final(self).position() == step(old(self).position(), old(self).counts().0, old(self).counts().1)
                && final(self).remaining() == old(self).remaining() - 1,
            point is None ==> final(self).position() == old(self).position() && old(self).remaining() == 0,
    {
        let (i, j, k) = self.current;
        let (nx, ny, nz) = self.point_counts;
        if k >= nz {
            proof {
                lemma_walk_end(self.current, self.point_counts);
            }
            return None;
        }
        let size = self.bounds.dimensions();
        let dx = quotient(size.0, from_usize(nx - 1));
        let dy = quotient(size.1, from_usize(ny - 1));
        let dz = quotient(size.2, from_usize(nz - 1));
        let x = sum(self.bounds.min.x, product(from_usize(i), dx));
        let y = sum(self.bounds.min.y, product(from_usize(j), dy));
        let z = sum(self.bounds.min.z, product(from_usize(k), dz));
        self.current = advance(self.current, self.point_counts);
        Some(Vec3::new(x, y, z))
    }

    /// The locations of the points left to walk, in walking order.
    pub fn collect(self) -> (points: Vec<Vec3<T>>)
        requires
            self.wf(),
        ensures
            points@.len() == self.remaining(),
    {
        let mut iter = self;
        let mut points: Vec<Vec3<T>> = Vec::new();
        let ghost total = self.remaining();
        loop
            invariant
                iter.wf(),
                iter.counts() == self.counts(),
                points@.len() + iter.remaining() == total,
            ensures
                points@.len() == total,
            decreases iter.counts().2 - iter.position().2, iter.counts().1 - iter.position().1, iter.counts().0
                - iter.position().0,
        {
            match iter.next() {
                Some(p) => points.push(p),
                None => {
                    break;
                },
            }
        }
        points
    }
}

/// Walks the cells of a grid spanning a box, `i` running fastest: `cell_counts` cells per
/// axis of equal size.
pub struct CellGridIter<T> {
    bounds: BoundingBox<T>,
    current: (usize, usize, usize),
    cell_counts: (usize, usize, usize),
}

impl<T> CellGridIter<T> {
    /// The position of the next cell.
    pub closed spec fn position(self) -> (usize, usize, usize) {
        self.current
    }

    /// The number of cells per axis.
    pub closed spec fn counts(self) -> (usize, usize, usize) {
        self.cell_counts
    }

    /// The walk is in range.
    pub open spec fn wf(self) -> bool {
        in_walk(self.position(), self.counts())
    }

    /// Start a walk over the cells of a grid spanning `bounds`.
    pub fn new(bounds: BoundingBox<T>, cell_count: (usize, usize, usize)) -> (iter: Self)
        ensures
            iter.wf(),
            iter.position() == (0usize, 0usize, 0usize),
            iter.counts() == cell_count,
    {
        Self { bounds, current: (0, 0, 0), cell_counts: cell_count }
    }
}

impl<T: Float> CellGridIter<T> {
    /// The bounds of the next cell, or `None` once every layer was walked.
    pub fn next(&mut self) -> (cell: Option<BoundingBox<T>>)
        requires
            old(self).wf(),
        ensures
            final(self).wf(),
            final(self).counts() == old(self).counts(),
            cell is Some <==> old(self).position().2 < old(self).counts().2,
            cell is Some ==> final(self).position() == step(old(self).position(), old(self).counts().0, old(self).counts().1),
            cell is Some && old(self).counts().0 >= 1 && old(self).counts().1 >= 1 ==> walked(
                final(self).position(),
                old(self).counts().0,
                old(self).counts().1,
            ) == walked(old(self).position(), old(self).counts().0, old(self).counts().1) + 1,
            cell is None ==> final(self).position() == old(self).position(),
    {
        let (i, j, k) = self.current;
        let (nx, ny, nz) = self.cell_counts;
        if k >= nz {
            return None;
        }
        let size = self.bounds.dimensions();
        let dx = quotient(size.0, from_usize(nx));
        let dy = quotient(size.1, from_usize(ny));
        let dz = quotient(size.2, from_usize(nz));
        let min_x = sum(self.bounds.min.x, product(from_usize(i), dx));
        let min_y = sum(self.bounds.min.y, product(from_usize(j), dy));
        let min_z = sum(self.bounds.min.z, product(from_usize(k), dz));
        let cell_bb = BoundingBox::new(
            Vec3::new(min_x, min_y, min_z),
            Vec3::new(sum(min_x, dx), sum(min_y, dy), sum(min_z, dz)),
        );
        self.current = advance(self.current, self.cell_counts);
        Some(cell_bb)
    }

    /// The bounds of the cells left to walk, in walking order. From the start of a walk
    /// with cells on every axis, one per cell of the grid.
    pub fn collect(self) -> (cells: Vec<BoundingBox<T>>)
        requires
            self.wf(),
        ensures
            self.counts().0 >= 1 && self.counts().1 >= 1 && self.position() == (0usize, 0usize, 0usize) ==> cells@.len()
                == self.counts().0 * self.counts().1 * self.counts().2,
    {
        let mut iter = self;
        let mut cells: Vec<BoundingBox<T>> = Vec::new();
        let ghost n = self.counts();
        let ghost counted = n.0 >= 1 && n.1 >= 1 && self.position() == (0usize, 0usize, 0usize);
        proof {
            lemma_walk_start(n);
        }
        loop
            invariant
                iter.wf(),
                iter.counts() == n,
                counted == (n.0 >= 1 && n.1 >= 1 && self.position() == (0usize, 0usize, 0usize)),
                counted ==> cells@.len() == walked(iter.position(), n.0, n.1),
            ensures
                counted ==> cells@.len() == n.0 * n.1 * n.2,
            decreases iter.counts().2 - iter.position().2, iter.counts().1 - iter.position().1, iter.counts().0
                - iter.position().0,
        {
            match iter.next() {
                Some(c) => cells.push(c),
                None => {
                    proof {
                        lemma_walk_end(iter.position(), n);
                    }
                    break;
                },
            }
        }
        cells
    }
}

/// Walks the cells of a buffer of grid values, `i` running fastest, giving the values at
/// the eight corners of each cell.
pub struct DenseCellValueIterator<'a, T> {
    data: &'a [T],
    current: (usize, usize, usize),
    point_count: (usize, usize, usize),
}

impl<'a, T> DenseCellValueIterator<'a, T> {
    /// The buffer of values.
    pub closed spec fn values(self) -> Seq<T> {
        self.data@
    }

    /// The position of the next cell.
    pub closed spec fn position(self) -> (usize, usize, usize) {
        self.current
    }

    /// The number of points per axis.
    pub closed spec fn counts(self) -> (usize, usize, usize) {
        self.point_count
    }

    /// The grid of points as a triple.
    pub open spec fn grid(self) -> Vec3i {
        Vec3i { i: self.counts().0, j: self.counts().1, k: self.counts().2 }
    }

    /// The number of cells per axis.
    pub open spec fn cell_counts(self) -> (usize, usize, usize) {
        ((self.counts().0 - 1) as usize, (self.counts().1 - 1) as usize, (self.counts().2 - 1) as usize)
    }

    /// The buffer holds one value per grid point, the grid has a point on every axis, and
    /// the walk is in range.
    pub open spec fn wf(self) -> bool {
        &&& self.values().len() == self.grid().count()
        &&& self.grid().count() <= usize::MAX
        &&& self.counts().0 >= 1 && self.counts().1 >= 1 && self.counts().2 >= 1
        &&& self.counts().2 >= 2 ==> self.counts().0 >= 2 && self.counts().1 >= 2
        &&& in_walk(self.position(), self.cell_counts())
    }

    /// Start a walk over the cells of a buffer of grid values.
    pub fn new(data: &'a [T], point_count: (usize, usize, usize)) -> (iter: Self)
        ensures
            iter.values() == data@,
            iter.position() == (0usize, 0usize, 0usize),
            iter.counts() == point_count,
    {
        Self { data, current: (0, 0, 0), point_count }
    }
}

impl<'a, T: Copy> DenseCellValueIterator<'a, T> {
    /// The corner values of the next cell, or `None` once every cell was walked.
    pub fn next(&mut self) -> (values: Option<[T; 8]>)
        requires
            old(self).wf(),
        ensures
            final(self).wf(),
            final(self).values() == old(self).values(),
            final(self).counts() == old(self).counts(),
            values is Some <==> old(self).position().2 + 1 < old(self).counts().2,
            match values {
                Some(v) => {
                    &&& final(self).position() == step(
                        old(self).position(),
                        old(self).cell_counts().0,
                        old(self).cell_counts().1,
                    )
                    &&& walked(final(self).position(), old(self).cell_counts().0, old(self).cell_counts().1) == walked(
                        old(self).position(),
                        old(self).cell_counts().0,
                        old(self).cell_counts().1,
                    ) + 1
                    &&& forall|m: int| 0 <= m < 8 ==> v@[m] == old(self).values()[corner_ids(
                        old(self).grid(),
                        old(self).position().0 as int,
                        old(self).position().1 as int,
                        old(self).position().2 as int,
                    )[m]]
                },
                None => final(self).position() == old(self).position(),
            },
    {
        let (i, j, k) = self.current;
        let (nx, ny, nz) = self.point_count;
        if k >= nz - 1 {
            return None;
        }
        let n = Vec3i::new(nx, ny, nz);
        proof {
            assert(valid_cell(n, i as int, j as int, k as int));
        }
        let values = cell_values(self.data, n, i, j, k);
        self.current = advance(self.current, (nx - 1, ny - 1, nz - 1));
        Some(values)
    }

    /// The corner values of the cells left to walk, in walking order: from the start of a
    /// walk, one entry per cell of the grid.
    pub fn collect(self) -> (all: Vec<[T; 8]>)
        requires
            self.wf(),
        ensures
            self.position() == (0usize, 0usize, 0usize) ==> all@.len() == self.cell_counts().0 * self.cell_counts().1
                * self.cell_counts().2,
    {
        let mut iter = self;
        let mut all: Vec<[T; 8]> = Vec::new();
        let ghost n = self.cell_counts();
        let ghost start = self.position() == (0usize, 0usize, 0usize);
        proof {
            lemma_walk_start(n);
        }
        loop
            invariant
                iter.wf(),
                iter.values() == self.values(),
                iter.counts() == self.counts(),
                n == iter.cell_counts(),
                start == (self.position() == (0usize, 0usize, 0usize)),
                start && n.2 >= 1 ==> all@.len() == walked(iter.position(), n.0, n.1),
                start && n.2 == 0 ==> all@.len() == 0,
            ensures
                start ==> all@.len() == n.0 * n.1 * n.2,
            decreases n.2 - iter.position().2, n.1 - iter.position().1, n.0 - iter.position().0,
        {
            match iter.next() {
                Some(v) => {
                    all.push(v);
                },
                None => {
                    proof {
                        lemma_walk_end(iter.position(), n);
                        if n.2 == 0 {
                            assert(n.0 * n.1 * n.2 == 0) by (nonlinear_arith)
                                requires
                                    n.2 == 0,
                            ;
                        }
                    }
                    break;
                },
            }
        }
        all
    }
}

} // verus!

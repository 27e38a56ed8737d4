use vstd::prelude::*;
use num_traits::{Float, FloatConst};
use rayon::iter::{IndexedParallelIterator, IntoParallelRefMutIterator, ParallelIterator};

use crate::types::computation::model::{ComputationGraph, ModelComponent};
use crate::types::computation::ModelError;
use crate::types::geometry::{BoundingBox, Vec3};
use crate::utils::float::{ceil, difference, from_usize, ge, le, product, quotient, sum, to_usize, zero};
use crate::utils::math_helper::{
    in_grid, index3d_from_index1d, lemma_linear_index_bounds, lemma_linear_index_unique, linear_index,
};

use super::field_iterator::{
    CellGridIter, CellGridIterator, CellIterator, CellValueIterator, DenseCellValueIterator, GridIterator, PointGridIter,
    PointIterator, ValueIterator,
};
use super::grid;
use super::sparse_config::{block_side, block_total, BlockSize, SamplingMode, SparseFieldConfig};

verus! {

/// hashbrown's map from the position of an internal node in the root grid of a sparse
/// field to the node's place in the field's list of nodes.
#[derive(Debug)]
#[verifier::external_body]
pub struct NodeTable {
    table: hashbrown::HashMap<(usize, usize, usize), usize>,
}

/// The entries of a node table.
pub uninterp spec fn table_entries(table: NodeTable) -> Map<(usize, usize, usize), usize>;

/// `hashbrown::HashMap::new`: a map without entries.
#[verifier::external_body]
fn table_new() -> (table: NodeTable)
    ensures
        table_entries(table).is_empty(),
{
    NodeTable { table: hashbrown::HashMap::new() }
}

/// `hashbrown::HashMap::clear`: every entry is removed.
#[verifier::external_body]
fn table_clear(table: &mut NodeTable)
    ensures
        table_entries(*final(table)).is_empty(),
{
    table.table.clear();
}

/// `hashbrown::HashMap::insert`: afterwards the key maps to the value and the other
/// entries are kept; the value the key had before, if any, is returned.
#[verifier::external_body]
fn table_insert(table: &mut NodeTable, key: (usize, usize, usize), value: usize) -> (previous: Option<usize>)
    ensures
        table_entries(*final(table)) == table_entries(*old(table)).insert(key, value),
        previous == (if table_entries(*old(table)).dom().contains(key) {
            Some(table_entries(*old(table))[key])
        } else {
            None::<usize>
        }),
{
    table.table.insert(key, value)
}

/// `hashbrown::HashMap::is_empty`: whether the map has no entry.
#[verifier::external_body]
fn table_is_empty(table: &NodeTable) -> (empty: bool)
    ensures
        empty <==> table_entries(*table).is_empty(),
{
    table.table.is_empty()
}

/// A cell of an internal node: sampled values, one value for the whole cell, or nothing
/// to sample.
#[derive(Debug)]
#[verifier::reject_recursive_types(T)]
pub enum NodeHandle<T> {
    /// A block of sampled values.
    Leaf(LeafNode<T>),
    /// A single value for the whole cell, with the cell's bounds.
    Constant(BoundingBox<T>, T),
    /// Empty space, skipped when sampling.
    Empty,
}

/// A dense block of values over the grid points of a box.
#[derive(Debug)]
#[verifier::reject_recursive_types(T)]
pub struct LeafNode<T> {
    bounds: BoundingBox<T>,
    size: BlockSize,
    values: Vec<T>,
}

impl<T> LeafNode<T> {
    /// The block size: the number of points per axis.
    pub closed spec fn block(self) -> BlockSize {
        self.size
    }

    /// The values, `i` running fastest.
    pub closed spec fn values(self) -> Seq<T> {
        self.values@
    }

    /// The box the points span.
    pub closed spec fn region(self) -> BoundingBox<T> {
        self.bounds
    }

    /// One value per point of the block.
    pub open spec fn wf(self) -> bool {
        self.values().len() == block_total(self.block())
    }
}

impl<T: Float> LeafNode<T> {
    /// A block of zeros over a box.
    fn new(bounds: BoundingBox<T>, size: BlockSize) -> (leaf: Self)
        ensures
            leaf.wf(),
            leaf.block() == size,
            leaf.region() == bounds,
    {
        let total = size.total_size();
        let mut values: Vec<T> = Vec::new();
        let mut index: usize = 0;
        while index < total
            invariant
                index <= total,
                values@.len() == index,
            decreases total - index,
        {
            values.push(zero());
            index = index + 1;
        }
        LeafNode { bounds, size, values }
    }
}

/// A node of the root grid of a sparse field, split into a block of cells.
#[derive(Debug)]
#[verifier::reject_recursive_types(T)]
pub struct InternalNode<T> {
    bounds: BoundingBox<T>,
    size: BlockSize,
    children: Vec<NodeHandle<T>>,
}

impl<T> InternalNode<T> {
    /// The block size: the number of cells per axis.
    pub closed spec fn block(self) -> BlockSize {
        self.size
    }

    /// The cells, `i` running fastest.
    pub closed spec fn cells(self) -> Seq<NodeHandle<T>> {
        self.children@
    }

    /// The box the node covers.
    pub closed spec fn region(self) -> BoundingBox<T> {
        self.bounds
    }

    /// One cell per position of the block; every leaf holds one value per point of a
    /// block of `leaf_size`.
    pub open spec fn wf(self, leaf_size: BlockSize) -> bool {
        &&& self.cells().len() == block_total(self.block())
        &&& forall|m: int|
            0 <= m < self.cells().len() ==> (#[trigger] self.cells()[m] matches NodeHandle::Leaf(leaf) ==> leaf.wf()
                && leaf.block() == leaf_size)
    }

    /// The cells.
    pub fn children(&self) -> (cells: &Vec<NodeHandle<T>>)
        ensures
            cells@ == self.cells(),
    {
        &self.children
    }
}

impl<T: Float> InternalNode<T> {
    /// A node over a box with every cell empty.
    fn new(bounds: BoundingBox<T>, size: BlockSize) -> (node: Self)
        ensures
            node.block() == size,
            node.region() == bounds,
            node.cells().len() == block_total(size),
            forall|m: int| 0 <= m < node.cells().len() ==> #[trigger] node.cells()[m] is Empty,
    {
        let total = size.total_size();
        let mut children: Vec<NodeHandle<T>> = Vec::new();
        let mut index: usize = 0;
        while index < total
            invariant
                index <= total,
                children@.len() == index,
                forall|m: int| 0 <= m < index ==> #[trigger] children@[m] is Empty,
            decreases total - index,
        {
            children.push(NodeHandle::Empty);
            index = index + 1;
        }
        InternalNode { bounds, size, children }
    }

    /// The bounds of the cell at a position of the block: the node's box split evenly
    /// along each axis.
    pub fn cell_bounds(&self, index: usize) -> BoundingBox<T>
        requires
            index < block_total(self.block()),
    {
        let side = self.size.value();
        let total = self.size.total_size();
        let size = self.bounds.dimensions();
        let cells = from_usize(side);
        let dx = quotient(size.0, cells);
        let dy = quotient(size.1, cells);
        let dz = quotient(size.2, cells);
        let (i, j, k) = index3d_from_index1d(index, side, side, side);
        let min_x = sum(self.bounds.min.x, product(from_usize(i), dx));
        let min_y = sum(self.bounds.min.y, product(from_usize(j), dy));
        let min_z = sum(self.bounds.min.z, product(from_usize(k), dz));
        BoundingBox::new(Vec3::new(min_x, min_y, min_z), Vec3::new(sum(min_x, dx), sum(min_y, dy), sum(min_z, dz)))
    }

    /// Mark the cells that touch a box as active: each becomes a constant zero over its
    /// bounds. The other cells are kept.
    fn init_cells(&mut self, bounds: &BoundingBox<T>)
        requires
            old(self).cells().len() == block_total(old(self).block()),
        ensures
            final(self).block() == old(self).block(),
            final(self).region() == old(self).region(),
            final(self).cells().len() == old(self).cells().len(),
            forall|m: int|
                0 <= m < final(self).cells().len() ==> #[trigger] final(self).cells()[m] == old(self).cells()[m]
                    || final(self).cells()[m] is Constant,
    {
        let ghost before = self.children@;
        let mut index: usize = 0;
        while index < self.children.len()
            invariant
                self.size == old(self).size,
                self.bounds == old(self).bounds,
                self.children@.len() == before.len(),
                before == old(self).children@,
                before.len() == block_total(self.size),
                forall|m: int|
                    0 <= m < before.len() ==> #[trigger] self.children@[m] == before[m] || self.children@[m] is Constant,
            decreases before.len() - index,
        {
            let cell = self.cell_bounds(index);
            if bounds.intersects(&cell) {
                self.children.set(index, NodeHandle::Constant(cell, zero()));
            }
            index = index + 1;
        }
    }
}

/// The positions of the nodes of a root grid with `n` nodes per axis, each mapped to its
/// place in the list of nodes, `i` running fastest.
pub open spec fn grid_positions(n: (usize, usize, usize)) -> Map<(usize, usize, usize), usize> {
    Map::new(
        |key: (usize, usize, usize)| in_grid(key.0 as int, key.1 as int, key.2 as int, n.0 as int, n.1 as int, n.2 as int),
        |key: (usize, usize, usize)| linear_index(key.0 as int, key.1 as int, key.2 as int, n.0 as int, n.1 as int) as usize,
    )
}

/// The entries of [`grid_positions`] whose place comes before `count`.
spec fn positions_before(n: (usize, usize, usize), count: int) -> Map<(usize, usize, usize), usize> {
    Map::new(
        |key: (usize, usize, usize)|
            in_grid(key.0 as int, key.1 as int, key.2 as int, n.0 as int, n.1 as int, n.2 as int) && linear_index(
                key.0 as int,
                key.1 as int,
                key.2 as int,
                n.0 as int,
                n.1 as int,
            ) < count,
        |key: (usize, usize, usize)| linear_index(key.0 as int, key.1 as int, key.2 as int, n.0 as int, n.1 as int) as usize,
    )
}

/// Entering the position of the node at place `index` extends the entries by that place.
proof fn lemma_positions_step(n: (usize, usize, usize), index: int, key: (usize, usize, usize))
    requires
        0 <= index,
        in_grid(key.0 as int, key.1 as int, key.2 as int, n.0 as int, n.1 as int, n.2 as int),
        linear_index(key.0 as int, key.1 as int, key.2 as int, n.0 as int, n.1 as int) == index,
    ensures
        positions_before(n, index).insert(key, index as usize) == positions_before(n, index + 1),
{
    let lhs = positions_before(n, index).insert(key, index as usize);
    let rhs = positions_before(n, index + 1);
    assert forall|other: (usize, usize, usize)| rhs.dom().contains(other) implies lhs.dom().contains(other) by {
        if linear_index(other.0 as int, other.1 as int, other.2 as int, n.0 as int, n.1 as int) == index {
            lemma_linear_index_unique(
                other.0 as int,
                other.1 as int,
                other.2 as int,
                key.0 as int,
                key.1 as int,
                key.2 as int,
                n.0 as int,
                n.1 as int,
                n.2 as int,
            );
        }
    }
    assert(lhs =~= rhs);
}

/// Once every place was entered, the entries are the positions of the grid.
proof fn lemma_positions_full(n: (usize, usize, usize))
    ensures
        positions_before(n, n.0 * n.1 * n.2) == grid_positions(n),
{
    let lhs = positions_before(n, n.0 * n.1 * n.2);
    let rhs = grid_positions(n);
    assert forall|key: (usize, usize, usize)| rhs.dom().contains(key) implies lhs.dom().contains(key) by {
        lemma_linear_index_bounds(
            key.0 as int,
            key.1 as int,
            key.2 as int,
            n.0 as int,
            n.1 as int,
            n.2 as int,
        );
    }
    assert(lhs =~= rhs);
}

/// A root grid has no position exactly when it has no node.
proof fn lemma_positions_empty(n: (usize, usize, usize))
    ensures
        grid_positions(n).dom() == Set::<(usize, usize, usize)>::empty() <==> n.0 * n.1 * n.2 == 0,
{
    if n.0 * n.1 * n.2 == 0 {
        assert(n.0 == 0 || n.1 == 0 || n.2 == 0) by (nonlinear_arith)
            requires
                n.0 * n.1 * n.2 == 0,
        ;
        assert(grid_positions(n).dom() =~= Set::<(usize, usize, usize)>::empty());
    } else {
        assert(n.0 >= 1 && n.1 >= 1 && n.2 >= 1) by (nonlinear_arith)
            requires
                n.0 * n.1 * n.2 != 0,
        ;
        assert(grid_positions(n).dom().contains((0usize, 0usize, 0usize)));
    }
}

/// Whether `a * b * c * t` fits a `usize` is what multiplying step by step with overflow
/// checks finds: `fits` is the outcome of checking `a * b`, then that times `c`, then that
/// times `t`.
proof fn lemma_product_fits(a: int, b: int, c: int, t: int, fits: bool)
    requires
        a >= 0 && b >= 0 && c >= 1 && t >= 1,
        fits == (a * b <= usize::MAX && a * b * c <= usize::MAX && a * b * c * t <= usize::MAX),
    ensures
        fits == (a * b * c * t <= usize::MAX),
{
    if a * b * c * t <= usize::MAX {
        assert(a * b * c <= a * b * c * t) by (nonlinear_arith)
            requires
                a * b * c >= 0,
                t >= 1,
        ;
        assert(a * b <= a * b * c) by (nonlinear_arith)
            requires
                a * b >= 0,
                c >= 1,
        ;
    }
}

/// A node as the root grid creates it: cells of the given block size, each empty or a
/// constant.
pub open spec fn fresh_node<T>(node: InternalNode<T>, size: BlockSize) -> bool {
    &&& node.block() == size
    &&& node.cells().len() == block_total(size)
    &&& forall|m: int| 0 <= m < node.cells().len() ==> #[trigger] node.cells()[m] is Empty || node.cells()[m] is Constant
}

/// The number of internal nodes along an axis of length `length`: the nodes needed to
/// cover it, at least one. `None` where that count has no `usize`.
fn axis_node_count<T: Float>(length: T, node_size: T) -> (count: Option<usize>)
    ensures
        count matches Some(c) ==> c >= 1,
{
    match to_usize(ceil(quotient(length, node_size))) {
        Some(c) => {
            if c < 1 {
                Some(1)
            } else {
                Some(c)
            }
        },
        None => None,
    }
}

/// The root of a sparse field: a grid of internal nodes, found by their grid position
/// through a table.
#[derive(Debug)]
#[verifier::reject_recursive_types(T)]
struct RootNode<T> {
    table: NodeTable,
    counts: (usize, usize, usize),
    nodes: Vec<InternalNode<T>>,
}

impl<T: Float> RootNode<T> {
    /// A root without nodes.
    fn new() -> (root: Self)
        ensures
            table_entries(root.table) == grid_positions(root.counts),
            root.counts == (0usize, 0usize, 0usize),
            root.nodes@.len() == 0,
    {
        let root = RootNode { table: table_new(), counts: (0, 0, 0), nodes: Vec::new() };
        proof {
            lemma_positions_empty(root.counts);
            assert(table_entries(root.table) =~= grid_positions(root.counts));
        }
        root
    }

    /// The side of an internal node: `internal_size` cells of `leaf_size - 1` steps of the
    /// cell size each.
    fn node_size(config: &SparseFieldConfig<T>) -> T {
        let internal_side = config.internal_size.value();
        let leaf_steps = config.leaf_size.value() - 1;
        assert(internal_side * leaf_steps <= 64 * 63) by (nonlinear_arith)
            requires
                internal_side <= 64,
                leaf_steps <= 63,
        ;
        product(config.cell_size, from_usize(internal_side * leaf_steps))
    }

    /// Cover a box with a grid of internal nodes, replacing the nodes there were: as many
    /// nodes along each axis as it takes to cover the box, at least one (see
    /// [`RootNode::init_grid`]).
    ///
    /// Fails, with nothing changed, where the number of nodes along an axis has no `usize`
    /// (a box that is not finite and ordered), or as [`RootNode::init_grid`] does.
    fn init_bounds(&mut self, bounds: &BoundingBox<T>, config: &SparseFieldConfig<T>) -> (r: Result<(), ModelError>)
        ensures
            match r {
                Ok(_) => {
                    &&& final(self).counts.0 >= 1 && final(self).counts.1 >= 1 && final(self).counts.2 >= 1
                    &&& final(self).counts.0 * final(self).counts.1 * final(self).counts.2 * block_total(
                        config.internal_size,
                    ) <= usize::MAX
                    &&& table_entries(final(self).table) == grid_positions(final(self).counts)
                    &&& final(self).nodes@.len() == final(self).counts.0 * final(self).counts.1 * final(self).counts.2
                    &&& forall|m: int|
                        0 <= m < final(self).nodes@.len() ==> fresh_node(
                            #[trigger] final(self).nodes@[m],
                            config.internal_size,
                        )
                },
                Err(e) => e is Custom && *final(self) == *old(self),
            },
    {
        let node_size = Self::node_size(config);
        let size = bounds.dimensions();
        let counts = (
            axis_node_count(size.0, node_size),
            axis_node_count(size.1, node_size),
            axis_node_count(size.2, node_size),
        );
        match counts {
            (Some(x), Some(y), Some(z)) => self.init_grid(bounds, config, (x, y, z)),
            _ => Err(
                ModelError::Custom(
                    String::from_str(
                        "Failed to get the number of internal nodes from the bounds. Make sure the bounds have a positive size in all directions.",
                    ),
                ),
            ),
        }
    }

    /// Replace the nodes by a grid of `counts` internal nodes per axis starting at the
    /// minimum of a box, each of the side of [`RootNode::node_size`], and mark the cells
    /// that touch the box as active.
    ///
    /// Fails, with nothing changed, exactly where the cells of all nodes do not fit a
    /// `usize`.
    fn init_grid(&mut self, bounds: &BoundingBox<T>, config: &SparseFieldConfig<T>, counts: (usize, usize, usize)) -> (r:
        Result<(), ModelError>)
        requires
            counts.0 >= 1 && counts.1 >= 1 && counts.2 >= 1,
        ensures
            r is Ok <==> counts.0 * counts.1 * counts.2 * block_total(config.internal_size) <= usize::MAX,
            match r {
                Ok(_) => {
                    &&& final(self).counts == counts
                    &&& table_entries(final(self).table) == grid_positions(counts)
                    &&& final(self).nodes@.len() == counts.0 * counts.1 * counts.2
                    &&& forall|m: int|
                        0 <= m < final(self).nodes@.len() ==> fresh_node(
                            #[trigger] final(self).nodes@[m],
                            config.internal_size,
                        )
                },
                Err(e) => e is Custom && *final(self) == *old(self),
            },
    {
        let node_size = Self::node_size(config);
        let (nx, ny, nz) = counts;
        let total = config.internal_size.total_size();
        let fits = match nx.checked_mul(ny) {
            Some(xy) => match xy.checked_mul(nz) {
                Some(xyz) => match xyz.checked_mul(total) {
                    Some(_) => true,
                    None => false,
                },
                None => false,
            },
            None => false,
        };
        proof {
            lemma_product_fits(nx as int, ny as int, nz as int, total as int, fits);
        }
        if !fits {
            return Err(ModelError::Custom(String::from_str("The bounds need more cells than fit in memory.")));
        }
        let count = nx * ny * nz;
        let n = (nx, ny, nz);
        table_clear(&mut self.table);
        let mut nodes: Vec<InternalNode<T>> = Vec::new();
        let mut index: usize = 0;
        proof {
            assert(table_entries(self.table) =~= positions_before(n, 0));
        }
        while index < count
            invariant
                count == nx * ny * nz,
                n == (nx, ny, nz),
                index <= count,
                nodes@.len() == index,
                forall|m: int| 0 <= m < index ==> fresh_node(#[trigger] nodes@[m], config.internal_size),
                table_entries(self.table) == positions_before(n, index as int),
            decreases count - index,
        {
            let (i, j, k) = index3d_from_index1d(index, nx, ny, nz);
            let min_x = sum(bounds.min.x, product(from_usize(i), node_size));
            let min_y = sum(bounds.min.y, product(from_usize(j), node_size));
            let min_z = sum(bounds.min.z, product(from_usize(k), node_size));
            let node_bounds = BoundingBox::new(
                Vec3::new(min_x, min_y, min_z),
                Vec3::new(sum(min_x, node_size), sum(min_y, node_size), sum(min_z, node_size)),
            );
            let mut node = InternalNode::new(node_bounds, config.internal_size);
            node.init_cells(bounds);
            nodes.push(node);
            table_insert(&mut self.table, (i, j, k), index);
            proof {
                lemma_positions_step(n, index as int, (i, j, k));
            }
            index = index + 1;
        }
        proof {
            lemma_positions_full(n);
        }
        self.counts = n;
        self.nodes = nodes;
        Ok(())
    }
}

/// A sparse field of values over a box.
///
/// A root grid of internal nodes covers the box; each internal node is split into a block
/// of cells, and each cell holds a dense block of sampled values (a leaf), one value for
/// the whole cell, or nothing. Values are only sampled densely where the field is near the
/// range of interest.
#[derive(Debug)]
#[verifier::reject_recursive_types(T)]
pub struct SparseField<T> {
    config: SparseFieldConfig<T>,
    root: RootNode<T>,
}

impl<T> SparseField<T> {
    /// The configuration: block sizes, sampling mode and cell size.
    pub closed spec fn settings(self) -> SparseFieldConfig<T> {
        self.config
    }

    /// The number of internal nodes along each axis of the root grid.
    pub closed spec fn node_counts(self) -> (usize, usize, usize) {
        self.root.counts
    }

    /// The entries of the root table: grid position to place in the list of nodes.
    pub closed spec fn positions(self) -> Map<(usize, usize, usize), usize> {
        table_entries(self.root.table)
    }

    /// The internal nodes, `i` running fastest over the root grid.
    pub closed spec fn internal_nodes(self) -> Seq<InternalNode<T>> {
        self.root.nodes@
    }

    /// The table holds the position of every node of the root grid, one node per
    /// position; all cells fit a `usize`; every node has a block of the internal size and
    /// every leaf one of the leaf size.
    pub open spec fn wf(self) -> bool {
        &&& self.positions() == grid_positions(self.node_counts())
        &&& self.internal_nodes().len() == self.node_counts().0 * self.node_counts().1 * self.node_counts().2
        &&& self.node_counts().0 * self.node_counts().1 * self.node_counts().2 * block_total(
            self.settings().internal_size,
        ) <= usize::MAX
        &&& forall|m: int|
            0 <= m < self.internal_nodes().len() ==> (#[trigger] self.internal_nodes()[m]).block()
                == self.settings().internal_size && self.internal_nodes()[m].wf(self.settings().leaf_size)
    }

    /// The internal nodes, `i` running fastest over the root grid.
    pub fn nodes(&self) -> (nodes: &Vec<InternalNode<T>>)
        ensures
            nodes@ == self.internal_nodes(),
    {
        &self.root.nodes
    }

    /// Whether the root table has no node: the field was not given bounds.
    pub fn is_empty(&self) -> (empty: bool)
        requires
            self.wf(),
        ensures
            empty <==> self.internal_nodes().len() == 0,
    {
        proof {
            lemma_positions_empty(self.root.counts);
        }
        table_is_empty(&self.root.table)
    }
}

impl<T: Float> SparseField<T> {
    /// A field without nodes, with a configuration.
    pub fn new(config: SparseFieldConfig<T>) -> (field: Self)
        ensures
            field.wf(),
            field.settings() == config,
            field.node_counts() == (0usize, 0usize, 0usize),
            field.internal_nodes().len() == 0,
    {
        let field = SparseField { config, root: RootNode::new() };
        proof {
            let n = field.node_counts();
            assert(n.0 * n.1 * n.2 * block_total(config.internal_size) == 0) by (nonlinear_arith)
                requires
                    n == (0usize, 0usize, 0usize),
            ;
        }
        field
    }

    /// Cover a box with internal nodes, replacing those there were, and mark the cells
    /// that touch the box as active (a constant zero). Each node spans `internal_size`
    /// cells per axis, each cell `leaf_size - 1` steps of the cell size, and there are as
    /// many nodes along each axis as it takes to cover the box, at least one.
    ///
    /// Fails with [`ModelError::Custom`], with nothing changed, where the number of nodes
    /// along an axis has no `usize` (a box that is not finite and ordered) or the cells of
    /// all nodes do not fit a `usize`.
    pub fn init_bounds(&mut self, bounds: &BoundingBox<T>) -> (r: Result<(), ModelError>)
        requires
            old(self).wf(),
        ensures
            final(self).wf(),
            final(self).settings() == old(self).settings(),
            match r {
                Ok(_) => {
                    &&& final(self).node_counts().0 >= 1 && final(self).node_counts().1 >= 1
                        && final(self).node_counts().2 >= 1
                    &&& forall|m: int|
                        0 <= m < final(self).internal_nodes().len() ==> fresh_node(
                            #[trigger] final(self).internal_nodes()[m],
                            final(self).settings().internal_size,
                        )
                },
                Err(e) => e is Custom && *final(self) == *old(self),
            },
    {
        let config = self.config;
        self.root.init_bounds(bounds, &config)
    }

    /// Replace the internal nodes by a grid of `counts` nodes per axis starting at the
    /// minimum of the box, with the node size of [`SparseField::init_bounds`], and mark the
    /// cells that touch the box as active (a constant zero).
    ///
    /// Fails with [`ModelError::Custom`], with nothing changed, exactly where the cells of
    /// all nodes do not fit a `usize`.
    pub fn init_node_grid(&mut self, bounds: &BoundingBox<T>, counts: (usize, usize, usize)) -> (r: Result<(), ModelError>)
        requires
            old(self).wf(),
            counts.0 >= 1 && counts.1 >= 1 && counts.2 >= 1,
        ensures
            final(self).wf(),
            final(self).settings() == old(self).settings(),
            r is Ok <==> counts.0 * counts.1 * counts.2 * block_total(old(self).settings().internal_size) <= usize::MAX,
            match r {
                Ok(_) => {
                    &&& final(self).node_counts() == counts
                    &&& forall|m: int|
                        0 <= m < final(self).internal_nodes().len() ==> fresh_node(
                            #[trigger] final(self).internal_nodes()[m],
                            final(self).settings().internal_size,
                        )
                },
                Err(e) => e is Custom && *final(self) == *old(self),
            },
    {
        let config = self.config;
        self.root.init_grid(bounds, &config, counts)
    }
}

/// What sampling makes of a cell: an empty cell stays empty; any other becomes a leaf of
/// `leaf_size` or a constant. Where the graph's output is a constant, every value taken is
/// that constant.
pub open spec fn sampled_cell<T>(
    before: NodeHandle<T>,
    after: NodeHandle<T>,
    leaf_size: BlockSize,
    output: ModelComponent<T>,
) -> bool {
    if before is Empty {
        after is Empty
    } else {
        match after {
            NodeHandle::Leaf(leaf) => {
                &&& leaf.wf()
                &&& leaf.block() == leaf_size
                &&& output is Constant ==> forall|m: int|
                    0 <= m < leaf.values().len() ==> #[trigger] leaf.values()[m] == output->Constant_0
                &&& grid::sampled_on_grid(
                    output,
                    leaf.values(),
                    block_side(leaf_size) as int,
                    block_side(leaf_size) as int,
                    block_side(leaf_size) as int,
                )
            },
            NodeHandle::Constant(_, value) => output is Constant ==> value == output->Constant_0,
            NodeHandle::Empty => false,
        }
    }
}

/// The coordinates of `side` points spread evenly from `start` over `length`: `start`
/// plus `i` steps of `length / (side - 1)`.
fn spread_coordinates<T: Float>(start: T, length: T, side: usize) -> (coords: Vec<T>)
    requires
        side >= 1,
    ensures
        coords@.len() == side,
{
    let step = quotient(length, from_usize(side - 1));
    let mut coords: Vec<T> = Vec::new();
    let mut i: usize = 0;
    while i < side
        invariant
            i <= side,
            coords@.len() == i,
        decreases side - i,
    {
        coords.push(sum(start, product(from_usize(i), step)));
        i = i + 1;
    }
    coords
}

impl<T: Float + FloatConst> LeafNode<T> {
    /// Evaluate the graph at each point of the block: the points spread evenly over the
    /// leaf's box, `side` per axis, `i` running fastest.
    fn sample_points(&mut self, graph: &ComputationGraph<'_, T>)
        requires
            old(self).wf(),
            graph.wf(),
            graph.nodes().len() > 0,
        ensures
            final(self).wf(),
            final(self).block() == old(self).block(),
            final(self).region() == old(self).region(),
            graph.nodes().last() is Constant ==> forall|m: int|
                0 <= m < final(self).values().len() ==> #[trigger] final(self).values()[m]
                    == graph.nodes().last()->Constant_0,
            grid::sampled_on_grid(
                graph.nodes().last(),
                final(self).values(),
                block_side(final(self).block()) as int,
                block_side(final(self).block()) as int,
                block_side(final(self).block()) as int,
            ),
    {
        let side = self.size.value();
        let (lx, ly, lz) = self.bounds.dimensions();
        let xs = spread_coordinates(self.bounds.min.x, lx, side);
        let ys = spread_coordinates(self.bounds.min.y, ly, side);
        let zs = spread_coordinates(self.bounds.min.z, lz, side);
        let ghost s = side as int;
        assert(side * side * side == block_total(self.size)) by (nonlinear_arith)
            requires
                side == block_side(self.size),
        ;
        let total = self.values.len();
        let mut index: usize = 0;
        while index < total
            invariant
                graph.wf(),
                graph.nodes().len() > 0,
                self.size == old(self).size,
                self.bounds == old(self).bounds,
                side == block_side(self.size),
                s == side as int,
                side * side * side == total,
                total == self.values@.len(),
                self.values@.len() == block_total(self.size),
                xs@.len() == side && ys@.len() == side && zs@.len() == side,
                index <= total,
                graph.nodes().last() is Constant ==> forall|m: int|
                    0 <= m < index ==> #[trigger] self.values@[m] == graph.nodes().last()->Constant_0,
                forall|i: int, j: int, k: int|
                    in_grid(i, j, k, s, s, s) && linear_index(i, j, k, s, s) < index ==> (graph.nodes().last().exact_value(
                        xs@[i],
                        ys@[j],
                        zs@[k],
                    ) matches Some(v) ==> #[trigger] self.values@[linear_index(i, j, k, s, s)] == v),
            decreases total - index,
        {
            let (i, j, k) = index3d_from_index1d(index, side, side, side);
            let value = graph.evaluate_at_coord(xs[i], ys[j], zs[k]);
            let ghost before = self.values@;
            self.values.set(index, value);
            proof {
                assert forall|a: int, b: int, c: int|
                    in_grid(a, b, c, s, s, s) && linear_index(a, b, c, s, s) < index + 1 implies (
                    graph.nodes().last().exact_value(xs@[a], ys@[b], zs@[c]) matches Some(v)
                        ==> #[trigger] self.values@[linear_index(a, b, c, s, s)] == v) by {
                    if linear_index(a, b, c, s, s) == index {
                        lemma_linear_index_unique(a, b, c, i as int, j as int, k as int, s, s, s);
                    } else {
                        assert(self.values@[linear_index(a, b, c, s, s)] == before[linear_index(a, b, c, s, s)]);
                    }
                }
            }
            index = index + 1;
        }
        proof {
            assert forall|i: int, j: int, k: int|
                in_grid(i, j, k, s, s, s) implies linear_index(i, j, k, s, s) < index by {
                lemma_linear_index_bounds(i, j, k, s, s, s);
            }
            assert(grid::sampled_on_axes(graph.nodes().last(), self.values@, s, s, s, xs@, ys@, zs@));
        }
    }
}

/// Whether a cell may hold values in `[min_val, max_val]`, judged from the distance bound
/// of the graph: at the centre of the cell, or at any of its corners.
fn is_overlapping<T: Float + FloatConst>(
    graph: &ComputationGraph<'_, T>,
    min_val: T,
    max_val: T,
    cell_bounds: &BoundingBox<T>,
    sampling_mode: SamplingMode,
) -> bool
    requires
        graph.wf(),
        graph.nodes().len() > 0,
{
    match sampling_mode {
        SamplingMode::CENTRE => {
            let centre = cell_bounds.centroid();
            let half_diag = cell_bounds.min.distance_to_vec3(&centre);
            let centre_val = graph.evaluate_at_coord(centre.x, centre.y, centre.z);
            le(difference(centre_val, half_diag), max_val) && ge(sum(centre_val, half_diag), min_val)
        },
        SamplingMode::CORNERS => {
            let corners = cell_bounds.corners();
            let half_diag = quotient(cell_bounds.min.distance_to_vec3(&cell_bounds.max), from_usize(2));
            let mut index: usize = 0;
            while index < 8
                invariant
                    graph.wf(),
                    graph.nodes().len() > 0,
                decreases 8 - index,
            {
                let point = corners[index];
                let corner_val = graph.evaluate_at_coord(point.x, point.y, point.z);
                if le(difference(corner_val, half_diag), max_val) && ge(sum(corner_val, half_diag), min_val) {
                    return true;
                }
                index = index + 1;
            }
            false
        },
    }
}

/// Sample one cell: an empty cell is skipped; a cell near the range of interest becomes a
/// leaf sampled at each of its points; any other becomes the constant value of the graph
/// at its centre.
fn sample_cell<T: Float + FloatConst>(
    graph: &ComputationGraph<'_, T>,
    min_val: T,
    max_val: T,
    leaf_size: BlockSize,
    sampling_mode: SamplingMode,
    cell_bounds: BoundingBox<T>,
    cell: &mut NodeHandle<T>,
)
    requires
        graph.wf(),
        graph.nodes().len() > 0,
    ensures
        sampled_cell(*old(cell), *final(cell), leaf_size, graph.nodes().last()),
{
    let empty = match cell {
        NodeHandle::Empty => true,
        _ => false,
    };
    if empty {
        return;
    }
    if is_overlapping(graph, min_val, max_val, &cell_bounds, sampling_mode) {
        let mut leaf = LeafNode::new(cell_bounds, leaf_size);
        leaf.sample_points(graph);
        *cell = NodeHandle::Leaf(leaf);
    } else {
        let centre = cell_bounds.centroid();
        *cell = NodeHandle::Constant(cell_bounds, graph.evaluate_at_coord(centre.x, centre.y, centre.z));
    }
}

/// rayon's `par_iter_mut().enumerate().for_each(..)` over the cells: each cell is replaced,
/// in parallel, by what [`sample_cell`] makes of it with the bounds at the same position.
/// What is stated is what that function guarantees of each cell, and that the length is
/// kept.
#[verifier::external_body]
fn sample_cells_par<T: Float + FloatConst + Send + Sync>(
    graph: &ComputationGraph<'_, T>,
    min_val: T,
    max_val: T,
    leaf_size: BlockSize,
    sampling_mode: SamplingMode,
    bounds: &Vec<BoundingBox<T>>,
    cells: &mut Vec<NodeHandle<T>>,
)
    requires
        graph.wf(),
        graph.nodes().len() > 0,
        bounds@.len() == old(cells)@.len(),
    ensures
        final(cells)@.len() == old(cells)@.len(),
        forall|m: int|
            0 <= m < old(cells)@.len() ==> sampled_cell(
                old(cells)@[m],
                #[trigger] final(cells)@[m],
                leaf_size,
                graph.nodes().last(),
            ),
{
    cells.par_iter_mut().enumerate().for_each(
        |(index, cell)| sample_cell(graph, min_val, max_val, leaf_size, sampling_mode, bounds[index], cell),
    );
}

impl<T: Float + FloatConst + Send + Sync> InternalNode<T> {
    /// Sample the cells in parallel, as [`sample_cell`] does each.
    fn sample_cells(
        &mut self,
        graph: &ComputationGraph<'_, T>,
        min_val: T,
        max_val: T,
        leaf_size: BlockSize,
        sampling_mode: SamplingMode,
    )
        requires
            old(self).cells().len() == block_total(old(self).block()),
            graph.wf(),
            graph.nodes().len() > 0,
        ensures
            final(self).block() == old(self).block(),
            final(self).region() == old(self).region(),
            final(self).cells().len() == old(self).cells().len(),
            forall|m: int|
                0 <= m < old(self).cells().len() ==> sampled_cell(
                    old(self).cells()[m],
                    #[trigger] final(self).cells()[m],
                    leaf_size,
                    graph.nodes().last(),
                ),
    {
        let mut bounds: Vec<BoundingBox<T>> = Vec::new();
        let mut index: usize = 0;
        while index < self.children.len()
            invariant
                self.children@.len() == block_total(self.size),
                bounds@.len() == index,
                index <= self.children@.len(),
            decreases self.children@.len() - index,
        {
            bounds.push(self.cell_bounds(index));
            index = index + 1;
        }
        sample_cells_par(graph, min_val, max_val, leaf_size, sampling_mode, &bounds, &mut self.children);
    }
}

impl<T: Float + FloatConst + Send + Sync> SparseField<T> {
    /// Sample the field from a computation graph: in each internal node, every active
    /// cell becomes a leaf sampled at each of its points where the graph may take values
    /// in `[min_val, max_val]` there (see [`SamplingMode`]), and the graph's value at the
    /// cell's centre otherwise. Empty cells stay empty.
    ///
    /// Fails with [`ModelError::Custom`], with nothing changed, when the field has no
    /// nodes: it was not given bounds.
    pub fn sample_from_graph(&mut self, graph: &ComputationGraph<'_, T>, min_val: T, max_val: T) -> (r: Result<
        (),
        ModelError,
    >)
        requires
            old(self).wf(),
            graph.wf(),
            graph.nodes().len() > 0,
        ensures
            final(self).wf(),
            final(self).settings() == old(self).settings(),
            final(self).node_counts() == old(self).node_counts(),
            final(self).internal_nodes().len() == old(self).internal_nodes().len(),
            r is Err <==> old(self).internal_nodes().len() == 0,
            r matches Err(e) ==> e is Custom && *final(self) == *old(self),
            active_total(final(self).internal_nodes()) == active_total(old(self).internal_nodes()),
            forall|m: int|
                0 <= m < old(self).internal_nodes().len() ==> {
                    let before = old(self).internal_nodes()[m];
                    let after = #[trigger] final(self).internal_nodes()[m];
                    &&& after.block() == before.block()
                    &&& after.region() == before.region()
                    &&& after.cells().len() == before.cells().len()
                    &&& forall|c: int|
                        0 <= c < before.cells().len() ==> sampled_cell(
                            before.cells()[c],
                            #[trigger] after.cells()[c],
                            old(self).settings().leaf_size,
                            graph.nodes().last(),
                        )
                },
    {
        if self.is_empty() {
            return Err(ModelError::Custom(String::from_str("Space not initialized.")));
        }
        let leaf_size = self.config.leaf_size;
        let sampling_mode = self.config.sampling_mode;
        let ghost before = self.root.nodes@;
        let mut index: usize = 0;
        while index < self.root.nodes.len()
            invariant
                graph.wf(),
                graph.nodes().len() > 0,
                self.config == old(self).config,
                self.root.counts == old(self).root.counts,
                self.root.table == old(self).root.table,
                before == old(self).root.nodes@,
                old(self).wf(),
                leaf_size == self.config.leaf_size,
                self.root.nodes@.len() == before.len(),
                index <= before.len(),
                forall|m: int| index <= m < before.len() ==> #[trigger] self.root.nodes@[m] == before[m],
                forall|m: int|
                    0 <= m < index ==> {
                        let after = #[trigger] self.root.nodes@[m];
                        &&& after.block() == before[m].block()
                        &&& after.region() == before[m].region()
                        &&& after.cells().len() == before[m].cells().len()
                        &&& forall|c: int|
                            0 <= c < before[m].cells().len() ==> sampled_cell(
                                before[m].cells()[c],
                                #[trigger] after.cells()[c],
                                leaf_size,
                                graph.nodes().last(),
                            )
                    },
            decreases before.len() - index,
        {
            assert(self.root.nodes@[index as int] == before[index as int]);
            self.root.nodes[index].sample_cells(graph, min_val, max_val, leaf_size, sampling_mode);
            index = index + 1;
        }
        proof {
            assert forall|m: int| 0 <= m < self.internal_nodes().len() implies (#[trigger] self.internal_nodes()[m]).block()
                == self.settings().internal_size && self.internal_nodes()[m].wf(self.settings().leaf_size) by {
                let after = self.internal_nodes()[m];
                assert forall|c: int| 0 <= c < after.cells().len() implies (#[trigger] after.cells()[c] matches NodeHandle::Leaf(
                    leaf,
                ) ==> leaf.wf() && leaf.block() == self.settings().leaf_size) by {
                    assert(sampled_cell(before[m].cells()[c], after.cells()[c], leaf_size, graph.nodes().last()));
                }
            }
            lemma_sampling_keeps_active_cells(*old(self), *self, graph.nodes().last());
        }
        Ok(())
    }
}

/// The number of cells of a block of points of each size: one fewer than the points per
/// axis, cubed.
pub open spec fn block_cells(size: BlockSize) -> nat {
    ((block_side(size) - 1) * (block_side(size) - 1) * (block_side(size) - 1)) as nat
}

/// The number of cells that are not empty.
pub open spec fn active_cells<T>(cells: Seq<NodeHandle<T>>) -> nat
    decreases cells.len(),
{
    if cells.len() == 0 {
        0
    } else {
        active_cells(cells.drop_last()) + if cells.last() is Empty {
            0nat
        } else {
            1nat
        }
    }
}

/// The number of cells that are not empty, over a list of internal nodes.
pub open spec fn active_total<T>(nodes: Seq<InternalNode<T>>) -> nat
    decreases nodes.len(),
{
    if nodes.len() == 0 {
        0
    } else {
        active_total(nodes.drop_last()) + active_cells(nodes.last().cells())
    }
}

/// The leaves among the cells, in order.
pub open spec fn cell_leaves<T>(cells: Seq<NodeHandle<T>>) -> Seq<LeafNode<T>>
    decreases cells.len(),
{
    if cells.len() == 0 {
        Seq::empty()
    } else {
        cell_leaves(cells.drop_last()) + (match cells.last() {
            NodeHandle::Leaf(leaf) => seq![leaf],
            _ => Seq::empty(),
        })
    }
}

/// The leaves of a list of internal nodes, node after node.
pub open spec fn node_leaves<T>(nodes: Seq<InternalNode<T>>) -> Seq<LeafNode<T>>
    decreases nodes.len(),
{
    if nodes.len() == 0 {
        Seq::empty()
    } else {
        node_leaves(nodes.drop_last()) + cell_leaves(nodes.last().cells())
    }
}

/// The values of a list of leaves, leaf after leaf.
pub open spec fn leaf_values<T>(leaves: Seq<LeafNode<T>>) -> Seq<T>
    decreases leaves.len(),
{
    if leaves.len() == 0 {
        Seq::empty()
    } else {
        leaf_values(leaves.drop_last()) + leaves.last().values()
    }
}

/// At most every cell is active.
proof fn lemma_active_cells_bound<T>(cells: Seq<NodeHandle<T>>)
    ensures
        active_cells(cells) <= cells.len(),
    decreases cells.len(),
{
    if cells.len() > 0 {
        lemma_active_cells_bound(cells.drop_last());
    }
}

/// At most every cell of every node is active.
proof fn lemma_active_total_bound<T>(nodes: Seq<InternalNode<T>>, size: BlockSize)
    requires
        forall|m: int| 0 <= m < nodes.len() ==> (#[trigger] nodes[m]).cells().len() == block_total(size),
    ensures
        active_total(nodes) <= nodes.len() * block_total(size),
    decreases nodes.len(),
{
    if nodes.len() > 0 {
        let rest = nodes.drop_last();
        assert forall|m: int| 0 <= m < rest.len() implies (#[trigger] rest[m]).cells().len() == block_total(size) by {
            assert(rest[m] == nodes[m]);
        }
        lemma_active_total_bound(rest, size);
        lemma_active_cells_bound(nodes.last().cells());
        assert(rest.len() * block_total(size) + block_total(size) == nodes.len() * block_total(size)) by (nonlinear_arith)
            requires
                rest.len() + 1 == nodes.len(),
        ;
    }
}

/// The leaves among cells whose leaves all have one block size have that size.
proof fn lemma_cell_leaves_wf<T>(cells: Seq<NodeHandle<T>>, leaf_size: BlockSize)
    requires
        forall|m: int|
            0 <= m < cells.len() ==> (#[trigger] cells[m] matches NodeHandle::Leaf(leaf) ==> leaf.wf() && leaf.block()
                == leaf_size),
    ensures
        forall|k: int|
            0 <= k < cell_leaves(cells).len() ==> (#[trigger] cell_leaves(cells)[k]).wf() && cell_leaves(cells)[k].block()
                == leaf_size,
    decreases cells.len(),
{
    if cells.len() > 0 {
        let rest = cells.drop_last();
        assert forall|m: int|
            0 <= m < rest.len() implies (#[trigger] rest[m] matches NodeHandle::Leaf(leaf) ==> leaf.wf() && leaf.block()
            == leaf_size) by {
            assert(rest[m] == cells[m]);
        }
        lemma_cell_leaves_wf(rest, leaf_size);
        assert(cells.last() == cells[cells.len() - 1]);
    }
}

/// The leaves of nodes whose leaves all have one block size have that size.
proof fn lemma_node_leaves_wf<T>(nodes: Seq<InternalNode<T>>, leaf_size: BlockSize)
    requires
        forall|m: int| 0 <= m < nodes.len() ==> (#[trigger] nodes[m]).wf(leaf_size),
    ensures
        forall|k: int|
            0 <= k < node_leaves(nodes).len() ==> (#[trigger] node_leaves(nodes)[k]).wf() && node_leaves(nodes)[k].block()
                == leaf_size,
    decreases nodes.len(),
{
    if nodes.len() > 0 {
        let rest = nodes.drop_last();
        assert forall|m: int| 0 <= m < rest.len() implies (#[trigger] rest[m]).wf(leaf_size) by {
            assert(rest[m] == nodes[m]);
        }
        lemma_node_leaves_wf(rest, leaf_size);
        assert(nodes.last() == nodes[nodes.len() - 1]);
        lemma_cell_leaves_wf(nodes.last().cells(), leaf_size);
    }
}

impl<T: Copy> ValueIterator<T> for LeafNode<T> {
    /// The values, `i` running fastest.
    fn iter_values(&self) -> (values: Vec<T>)
        ensures
            values@ == self.values(),
    {
        let mut copy: Vec<T> = Vec::new();
        let mut index: usize = 0;
        while index < self.values.len()
            invariant
                index <= self.values@.len(),
                copy@ == self.values@.subrange(0, index as int),
            decreases self.values@.len() - index,
        {
            copy.push(self.values[index]);
            index = index + 1;
            assert(copy@ =~= self.values@.subrange(0, index as int));
        }
        assert(copy@ =~= self.values@);
        copy
    }
}

impl<T> PointIterator<T> for LeafNode<T> {
    /// The locations of the points of the block, `i` running fastest.
    fn iter_points(&self) -> (points: Vec<Vec3<T>>) where T: Float
        ensures
            points@.len() == block_total(self.block()),
    {
        self.iter_grid()
    }
}

impl<T> GridIterator<T> for LeafNode<T> {
    /// The locations of the points of the block, `i` running fastest.
    fn iter_grid(&self) -> (points: Vec<Vec3<T>>) where T: Float
        ensures
            points@.len() == block_total(self.block()),
    {
        let side = self.size.value();
        PointGridIter::new(self.bounds, (side, side, side)).collect()
    }
}

impl<T> CellIterator<T> for LeafNode<T> {
    /// The cells between the points of the block, `i` running fastest.
    fn iter_cells(&self) -> (cells: Vec<BoundingBox<T>>) where T: Float
        ensures
            cells@.len() == block_cells(self.block()),
    {
        self.iter_cell_grid()
    }
}

impl<T> CellGridIterator<T> for LeafNode<T> {
    /// The cells between the points of the block, `i` running fastest.
    fn iter_cell_grid(&self) -> (cells: Vec<BoundingBox<T>>) where T: Float
        ensures
            cells@.len() == block_cells(self.block()),
    {
        let cells_per_dim = self.size.value() - 1;
        CellGridIter::new(self.bounds, (cells_per_dim, cells_per_dim, cells_per_dim)).collect()
    }
}

impl<T: Copy> CellValueIterator<T> for LeafNode<T> {
    /// For each cell between the points of the block, `i` running fastest, the values at
    /// its eight corners.
    fn iter_cell_values(&self) -> (all: Vec<[T; 8]>)
        ensures
            self.wf() ==> all@.len() == block_cells(self.block()),
    {
        let side = self.size.value();
        if self.values.len() != self.size.total_size() {
            return Vec::new();
        }
        DenseCellValueIterator::new(self.values.as_slice(), (side, side, side)).collect()
    }
}

impl<T> SparseField<T> {
    /// The number of cells, over all internal nodes, that are not empty.
    pub fn n_active_nodes(&self) -> (count: usize)
        requires
            self.wf(),
        ensures
            count == active_total(self.internal_nodes()),
    {
        let ghost nodes = self.root.nodes@;
        let ghost size = self.config.internal_size;
        proof {
            assert forall|m: int| 0 <= m < nodes.len() implies (#[trigger] nodes[m]).cells().len() == block_total(size) by {
                assert(self.internal_nodes()[m] == nodes[m]);
            }
        }
        let mut count: usize = 0;
        let mut m: usize = 0;
        while m < self.root.nodes.len()
            invariant
                self.wf(),
                nodes == self.root.nodes@,
                size == self.config.internal_size,
                forall|k: int| 0 <= k < nodes.len() ==> (#[trigger] nodes[k]).cells().len() == block_total(size),
                m <= nodes.len(),
                count == active_total(nodes.take(m as int)),
            decreases nodes.len() - m,
        {
            let cells = &self.root.nodes[m].children;
            let mut in_node: usize = 0;
            let mut c: usize = 0;
            while c < cells.len()
                invariant
                    c <= cells@.len(),
                    in_node <= c,
                    in_node == active_cells(cells@.take(c as int)),
                decreases cells@.len() - c,
            {
                let empty = match &cells[c] {
                    NodeHandle::Empty => true,
                    _ => false,
                };
                if !empty {
                    in_node = in_node + 1;
                }
                proof {
                    assert(cells@.take(c + 1).drop_last() =~= cells@.take(c as int));
                }
                c = c + 1;
            }
            proof {
                assert(cells@.take(cells@.len() as int) =~= cells@);
                assert(nodes.take(m + 1).drop_last() =~= nodes.take(m as int));
                let prefix = nodes.take(m + 1);
                assert forall|k: int| 0 <= k < prefix.len() implies (#[trigger] prefix[k]).cells().len() == block_total(
                    size,
                ) by {
                    assert(prefix[k] == nodes[k]);
                }
                lemma_active_total_bound(prefix, size);
                assert((m + 1) * block_total(size) <= nodes.len() * block_total(size)) by (nonlinear_arith)
                    requires
                        m + 1 <= nodes.len(),
                ;
            }
            count = count + in_node;
            m = m + 1;
        }
        proof {
            assert(nodes.take(nodes.len() as int) =~= nodes);
        }
        count
    }

    /// The leaves of the field, node after node and, in each node, `i` running fastest.
    fn leaves(&self) -> (leaves: Vec<&LeafNode<T>>)
        ensures
            leaves@.map_values(|leaf: &LeafNode<T>| *leaf) == node_leaves(self.internal_nodes()),
    {
        let ghost nodes = self.root.nodes@;
        let mut leaves: Vec<&LeafNode<T>> = Vec::new();
        let mut m: usize = 0;
        while m < self.root.nodes.len()
            invariant
                nodes == self.root.nodes@,
                m <= nodes.len(),
                leaves@.map_values(|leaf: &LeafNode<T>| *leaf) == node_leaves(nodes.take(m as int)),
            decreases nodes.len() - m,
        {
            let cells = &self.root.nodes[m].children;
            let ghost start = leaves@.map_values(|leaf: &LeafNode<T>| *leaf);
            let mut c: usize = 0;
            proof {
                assert(cells@.take(0) =~= Seq::<NodeHandle<T>>::empty());
                assert(start + cell_leaves(cells@.take(0)) =~= start);
            }
            while c < cells.len()
                invariant
                    c <= cells@.len(),
                    leaves@.map_values(|leaf: &LeafNode<T>| *leaf) == start + cell_leaves(cells@.take(c as int)),
                decreases cells@.len() - c,
            {
                let ghost before = leaves@.map_values(|leaf: &LeafNode<T>| *leaf);
                match &cells[c] {
                    NodeHandle::Leaf(leaf) => {
                        leaves.push(leaf);
                        assert(leaves@.map_values(|leaf: &LeafNode<T>| *leaf) =~= before.push(*leaf));
                    },
                    _ => {},
                }
                proof {
                    assert(cells@.take(c + 1).drop_last() =~= cells@.take(c as int));
                    assert(cells@.take(c + 1).last() == cells@[c as int]);
                }
                c = c + 1;
            }
            proof {
                assert(cells@.take(cells@.len() as int) =~= cells@);
                assert(nodes.take(m + 1).drop_last() =~= nodes.take(m as int));
                assert(nodes.take(m + 1).last() == nodes[m as int]);
            }
            m = m + 1;
        }
        proof {
            assert(nodes.take(nodes.len() as int) =~= nodes);
        }
        leaves
    }
}

impl<T: Copy> ValueIterator<T> for SparseField<T> {
    /// The values of the leaves, leaf after leaf (see [`node_leaves`]).
    fn iter_values(&self) -> (values: Vec<T>)
        ensures
            values@ == leaf_values(node_leaves(self.internal_nodes())),
    {
        let leaves = self.leaves();
        let ghost list = leaves@.map_values(|leaf: &LeafNode<T>| *leaf);
        let mut values: Vec<T> = Vec::new();
        let mut k: usize = 0;
        while k < leaves.len()
            invariant
                list == leaves@.map_values(|leaf: &LeafNode<T>| *leaf),
                k <= leaves@.len(),
                values@ == leaf_values(list.take(k as int)),
            decreases leaves@.len() - k,
        {
            let mut more = leaves[k].iter_values();
            values.append(&mut more);
            proof {
                assert(list.take(k + 1).drop_last() =~= list.take(k as int));
                assert(list.take(k + 1).last() == list[k as int]);
            }
            k = k + 1;
        }
        proof {
            assert(list.take(list.len() as int) =~= list);
        }
        values
    }
}

impl<T> PointIterator<T> for SparseField<T> {
    /// The locations of the points of the leaves, leaf after leaf: one block of points of
    /// the leaf size per leaf.
    fn iter_points(&self) -> (points: Vec<Vec3<T>>) where T: Float
        ensures
            self.wf() ==> points@.len() == node_leaves(self.internal_nodes()).len() * block_total(
                self.settings().leaf_size,
            ),
    {
        let leaves = self.leaves();
        let ghost list = leaves@.map_values(|leaf: &LeafNode<T>| *leaf);
        let ghost sized = self.wf();
        let ghost per_leaf = block_total(self.settings().leaf_size);
        proof {
            if sized {
                lemma_node_leaves_wf(self.internal_nodes(), self.settings().leaf_size);
            }
        }
        let mut points: Vec<Vec3<T>> = Vec::new();
        let mut k: usize = 0;
        while k < leaves.len()
            invariant
                list == leaves@.map_values(|leaf: &LeafNode<T>| *leaf),
                list == node_leaves(self.internal_nodes()),
                k <= leaves@.len(),
                sized ==> forall|i: int| 0 <= i < list.len() ==> (#[trigger] list[i]).block() == self.settings().leaf_size,
                per_leaf == block_total(self.settings().leaf_size),
                sized ==> points@.len() == k * per_leaf,
            decreases leaves@.len() - k,
        {
            let mut more = leaves[k].iter_points();
            assert(list[k as int] == *leaves@[k as int]);
            points.append(&mut more);
            proof {
                assert((k + 1) * per_leaf == k * per_leaf + per_leaf) by (nonlinear_arith);
            }
            k = k + 1;
        }
        points
    }
}

impl<T> CellIterator<T> for SparseField<T> {
    /// The cells between the points of the leaves, leaf after leaf.
    fn iter_cells(&self) -> (cells: Vec<BoundingBox<T>>) where T: Float
        ensures
            self.wf() ==> cells@.len() == node_leaves(self.internal_nodes()).len() * block_cells(
                self.settings().leaf_size,
            ),
    {
        let leaves = self.leaves();
        let ghost list = leaves@.map_values(|leaf: &LeafNode<T>| *leaf);
        let ghost sized = self.wf();
        let ghost per_leaf = block_cells(self.settings().leaf_size);
        proof {
            if sized {
                lemma_node_leaves_wf(self.internal_nodes(), self.settings().leaf_size);
            }
        }
        let mut cells: Vec<BoundingBox<T>> = Vec::new();
        let mut k: usize = 0;
        while k < leaves.len()
            invariant
                list == leaves@.map_values(|leaf: &LeafNode<T>| *leaf),
                list == node_leaves(self.internal_nodes()),
                k <= leaves@.len(),
                sized ==> forall|i: int| 0 <= i < list.len() ==> (#[trigger] list[i]).block() == self.settings().leaf_size,
                per_leaf == block_cells(self.settings().leaf_size),
                sized ==> cells@.len() == k * per_leaf,
            decreases leaves@.len() - k,
        {
            let mut more = leaves[k].iter_cells();
            assert(list[k as int] == *leaves@[k as int]);
            cells.append(&mut more);
            proof {
                assert((k + 1) * per_leaf == k * per_leaf + per_leaf) by (nonlinear_arith);
            }
            k = k + 1;
        }
        cells
    }
}

impl<T: Copy> CellValueIterator<T> for SparseField<T> {
    /// For each cell between the points of the leaves, leaf after leaf, the values at its
    /// eight corners.
    fn iter_cell_values(&self) -> (all: Vec<[T; 8]>)
        ensures
            self.wf() ==> all@.len() == node_leaves(self.internal_nodes()).len() * block_cells(
                self.settings().leaf_size,
            ),
    {
        let leaves = self.leaves();
        let ghost list = leaves@.map_values(|leaf: &LeafNode<T>| *leaf);
        let ghost sized = self.wf();
        let ghost per_leaf = block_cells(self.settings().leaf_size);
        proof {
            if sized {
                lemma_node_leaves_wf(self.internal_nodes(), self.settings().leaf_size);
            }
        }
        let mut all: Vec<[T; 8]> = Vec::new();
        let mut k: usize = 0;
        while k < leaves.len()
            invariant
                list == leaves@.map_values(|leaf: &LeafNode<T>| *leaf),
                list == node_leaves(self.internal_nodes()),
                k <= leaves@.len(),
                sized ==> forall|i: int|
                    0 <= i < list.len() ==> (#[trigger] list[i]).block() == self.settings().leaf_size && list[i].wf(),
                per_leaf == block_cells(self.settings().leaf_size),
                sized ==> all@.len() == k * per_leaf,
            decreases leaves@.len() - k,
        {
            let mut more = leaves[k].iter_cell_values();
            assert(list[k as int] == *leaves@[k as int]);
            all.append(&mut more);
            proof {
                assert((k + 1) * per_leaf == k * per_leaf + per_leaf) by (nonlinear_arith);
            }
            k = k + 1;
        }
        all
    }
}

/// Cells sampled one for one keep which of them are active.
proof fn lemma_sampled_cells_active<T>(
    before: Seq<NodeHandle<T>>,
    after: Seq<NodeHandle<T>>,
    leaf_size: BlockSize,
    output: ModelComponent<T>,
)
    requires
        before.len() == after.len(),
        forall|c: int| 0 <= c < before.len() ==> sampled_cell(before[c], #[trigger] after[c], leaf_size, output),
    ensures
        active_cells(before) == active_cells(after),
    decreases before.len(),
{
    if before.len() > 0 {
        let (b, a) = (before.drop_last(), after.drop_last());
        assert forall|c: int| 0 <= c < b.len() implies sampled_cell(b[c], #[trigger] a[c], leaf_size, output) by {
            assert(b[c] == before[c] && a[c] == after[c]);
        }
        lemma_sampled_cells_active(b, a, leaf_size, output);
        assert(sampled_cell(before[before.len() - 1], after[after.len() - 1], leaf_size, output));
    }
}

/// Sampling keeps which cells are active: after [`SparseField::sample_from_graph`] a
/// field has exactly as many cells that are not empty as before, node by node and in
/// total.
pub proof fn lemma_sampling_keeps_active_cells<T>(
    before: SparseField<T>,
    after: SparseField<T>,
    output: ModelComponent<T>,
)
    requires
        after.internal_nodes().len() == before.internal_nodes().len(),
        forall|m: int|
            0 <= m < before.internal_nodes().len() ==> {
                let old_node = before.internal_nodes()[m];
                let new_node = #[trigger] after.internal_nodes()[m];
                &&& new_node.cells().len() == old_node.cells().len()
                &&& forall|c: int|
                    0 <= c < old_node.cells().len() ==> sampled_cell(
                        old_node.cells()[c],
                        #[trigger] new_node.cells()[c],
                        before.settings().leaf_size,
                        output,
                    )
            },
    ensures
        active_total(after.internal_nodes()) == active_total(before.internal_nodes()),
        forall|m: int|
            0 <= m < before.internal_nodes().len() ==> active_cells((#[trigger] after.internal_nodes()[m]).cells())
                == active_cells(before.internal_nodes()[m].cells()),
{
    lemma_nodes_active(before.internal_nodes(), after.internal_nodes(), before.settings().leaf_size, output);
}

/// Nodes sampled one for one keep their number of active cells.
proof fn lemma_nodes_active<T>(
    before: Seq<InternalNode<T>>,
    after: Seq<InternalNode<T>>,
    leaf_size: BlockSize,
    output: ModelComponent<T>,
)
    requires
        after.len() == before.len(),
        forall|m: int|
            0 <= m < before.len() ==> {
                let old_node = before[m];
                let new_node = #[trigger] after[m];
                &&& new_node.cells().len() == old_node.cells().len()
                &&& forall|c: int|
                    0 <= c < old_node.cells().len() ==> sampled_cell(
                        old_node.cells()[c],
                        #[trigger] new_node.cells()[c],
                        leaf_size,
                        output,
                    )
            },
    ensures
        active_total(after) == active_total(before),
        forall|m: int|
            0 <= m < before.len() ==> active_cells((#[trigger] after[m]).cells()) == active_cells(before[m].cells()),
    decreases before.len(),
{
    assert forall|m: int| 0 <= m < before.len() implies active_cells((#[trigger] after[m]).cells()) == active_cells(
        before[m].cells(),
    ) by {
        lemma_sampled_cells_active(before[m].cells(), after[m].cells(), leaf_size, output);
    }
    if before.len() > 0 {
        let (b, a) = (before.drop_last(), after.drop_last());
        assert forall|m: int|
            0 <= m < b.len() implies {
                let old_node = b[m];
                let new_node = #[trigger] a[m];
                &&& new_node.cells().len() == old_node.cells().len()
                &&& forall|c: int|
                    0 <= c < old_node.cells().len() ==> sampled_cell(
                        old_node.cells()[c],
                        #[trigger] new_node.cells()[c],
                        leaf_size,
                        output,
                    )
            } by {
            assert(b[m] == before[m] && a[m] == after[m]);
        }
        lemma_nodes_active(b, a, leaf_size, output);
        assert(active_cells(after[after.len() - 1].cells()) == active_cells(before[before.len() - 1].cells()));
    }
}

} // verus!

use vstd::prelude::*;
use num_traits::Float;

use crate::utils::float::one;

verus! {

/// Number of values per axis of a block of a sparse field.
#[derive(Debug, Clone, Copy, PartialEq, Eq, Structural)]
pub enum BlockSize {
    /// 2x2x2 blocks (8 values)
    Size2,
    /// 4x4x4 blocks (64 values)
    Size4,
    /// 8x8x8 blocks (512 values)
    Size8,
    /// 16x16x16 blocks (4096 values)
    Size16,
    /// 32x32x32 blocks (32768 values)
    Size32,
    /// 64x64x64 blocks (262144 values)
    Size64,
}

/// The number of values per axis of each block size.
pub open spec fn block_side(size: BlockSize) -> nat {
    match size {
        BlockSize::Size2 => 2,
        BlockSize::Size4 => 4,
        BlockSize::Size8 => 8,
        BlockSize::Size16 => 16,
        BlockSize::Size32 => 32,
        BlockSize::Size64 => 64,
    }
}

/// The number of values of a block of each size: the cube of its side.
pub open spec fn block_total(size: BlockSize) -> nat {
    block_side(size) * block_side(size) * block_side(size)
}

/// For every block size, the number of values of a block ([`BlockSize::total_size`]) is
/// the cube of its side ([`BlockSize::value`]), and a block spans at least one cell per
/// axis.
pub proof fn lemma_block_total_is_cube(size: BlockSize)
    ensures
        block_total(size) == block_side(size) * block_side(size) * block_side(size),
        block_side(size) >= 2,
{
}

impl BlockSize {
    /// The number of values per axis.
    pub fn value(&self) -> (side: usize)
        ensures
            side == block_side(*self),
            2 <= side <= 64,
    {
        match self {
            BlockSize::Size2 => 2,
            BlockSize::Size4 => 4,
            BlockSize::Size8 => 8,
            BlockSize::Size16 => 16,
            BlockSize::Size32 => 32,
            BlockSize::Size64 => 64,
        }
    }

    /// The number of values of a block: the cube of the side.
    pub fn total_size(&self) -> (total: usize)
        ensures
            total == block_total(*self),
    {
        match self {
            BlockSize::Size2 => 8,
            BlockSize::Size4 => 64,
            BlockSize::Size8 => 512,
            BlockSize::Size16 => 4096,
            BlockSize::Size32 => 32768,
            BlockSize::Size64 => 262144,
        }
    }
}

/// Where a sparse field samples a cell to decide whether it is active.
#[derive(Debug, Clone, Copy, PartialEq, Eq, Structural)]
pub enum SamplingMode {
    /// Sample only the centre point. Fast, but needs linear distance fields.
    CENTRE,
    /// Sample all corners. More robust but slower.
    CORNERS,
}

/// Configuration of a sparse field: block sizes of internal and leaf nodes, sampling
/// mode and cell size.
#[derive(Debug, Clone, Copy)]
pub struct SparseFieldConfig<T> {
    /// The size of internal nodes.
    pub internal_size: BlockSize,
    /// The size of leaf nodes.
    pub leaf_size: BlockSize,
    /// Sampling mode.
    pub sampling_mode: SamplingMode,
    /// Cell size.
    pub cell_size: T,
}

impl<T> SparseFieldConfig<T> {
    /// Set the cell size. Returns the config for chaining.
    pub fn set_cell_size(self, cell_size: T) -> (c: Self)
        ensures
            c == (SparseFieldConfig { cell_size, ..self }),
    {
        SparseFieldConfig { cell_size, ..self }
    }

    /// Set the internal node size. Returns the config for chaining.
    pub fn set_internal_size(self, internal_size: BlockSize) -> (c: Self)
        ensures
            c == (SparseFieldConfig { internal_size, ..self }),
    {
        SparseFieldConfig { internal_size, ..self }
    }

    /// Set the leaf node size. Returns the config for chaining.
    pub fn set_leaf_size(self, leaf_size: BlockSize) -> (c: Self)
        ensures
            c == (SparseFieldConfig { leaf_size, ..self }),
    {
        SparseFieldConfig { leaf_size, ..self }
    }

    /// Set the sampling mode. Returns the config for chaining.
    pub fn set_sampling_mode(self, sampling_mode: SamplingMode) -> (c: Self)
        ensures
            c == (SparseFieldConfig { sampling_mode, ..self }),
    {
        SparseFieldConfig { sampling_mode, ..self }
    }
}

impl<T: Float> SparseFieldConfig<T> {
    /// The default configuration: internal blocks of 32, leaf blocks of 8, centre
    /// sampling and a cell size of one.
    pub fn new() -> (c: Self)
        ensures
            c.internal_size == BlockSize::Size32,
            c.leaf_size == BlockSize::Size8,
            c.sampling_mode == SamplingMode::CENTRE,
    {
        SparseFieldConfig {
            internal_size: BlockSize::Size32,
            leaf_size: BlockSize::Size8,
            sampling_mode: SamplingMode::CENTRE,
            cell_size: one(),
        }
    }
}

} // verus!

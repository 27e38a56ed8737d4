/// Geometric primitives and their distance functions.
pub mod geometry;

/// Computation graphs, components and discrete scalar fields.
pub mod computation;

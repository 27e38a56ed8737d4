use vstd::prelude::*;
use num_traits::Float;

use crate::types::geometry::BoundingBox;
use crate::utils::float::{from_usize, quotient};

verus! {

/// Meta parameters of a model computation: its geometric bounds and post processing.
#[derive(Debug, Clone, Copy)]
pub struct ModelConfig<T> {
    /// Geometric limits of the model.
    pub bounds: BoundingBox<T>,
    /// Whether the object is capped at the bounds.
    pub cap: bool,
    /// Number of smoothing passes over the field.
    pub smoothing_iter: u32,
    /// Laplacian smoothing factor.
    pub smoothing_factor: T,
}

impl<T: Float> ModelConfig<T> {
    /// A config over `bounds`, capped, without smoothing passes and with a smoothing factor
    /// of three quarters.
    pub fn new(bounds: BoundingBox<T>) -> (config: Self)
        ensures
            config.bounds == bounds,
            config.cap,
            config.smoothing_iter == 0,
    {
        Self { bounds, cap: true, smoothing_iter: 0, smoothing_factor: quotient(from_usize(3), from_usize(4)) }
    }

    /// A capped config over `bounds` with field smoothing.
    pub fn with_smoothing(bounds: BoundingBox<T>, smoothing_iter: u32, smoothing_factor: T) -> (config: Self)
        ensures
            config == (ModelConfig { bounds, cap: true, smoothing_iter, smoothing_factor }),
    {
        Self { bounds, cap: true, smoothing_iter, smoothing_factor }
    }
}

} // verus!

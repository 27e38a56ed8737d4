use vstd::prelude::*;
use num_traits::{Float, FloatConst};

use crate::types::computation::model::ImplicitModel;
use crate::types::computation::ModelError;
use crate::types::geometry::BoundingBox;
use crate::utils::float::{from_usize, negate, one, quotient, zero};

use super::sparse_field::{fresh_node, sampled_cell, SparseField};
use super::{DenseField, SparseFieldConfig};

verus! {

/// Samples a model over a dense grid, with optional padding of the faces of the grid and
/// smoothing of the values.
#[verifier::reject_recursive_types(T)]
pub struct DenseSampler<T> {
    smoothing_iter: u32,
    smoothing_factor: T,
    padding: bool,
    dense_field: DenseField<T>,
}

/// Builder of a [`DenseSampler`]: bounds and a cell size are required; smoothing and
/// padding are optional.
#[derive(Debug, Clone, Copy)]
pub struct DenseSamplerBuilder<T> {
    cell_size: Option<T>,
    bounds: Option<BoundingBox<T>>,
    smoothing_iter: u32,
    smoothing_factor: T,
    padding: bool,
}

impl<T> DenseSamplerBuilder<T> {
    /// The settings: cell size, bounds, smoothing passes, smoothing factor and padding.
    pub closed spec fn settings(self) -> (Option<T>, Option<BoundingBox<T>>, u32, T, bool) {
        (self.cell_size, self.bounds, self.smoothing_iter, self.smoothing_factor, self.padding)
    }

    /// Set the cell size of the grid.
    pub fn with_cell_size(self, cell_size: T) -> (b: Self)
        ensures
            b.settings() == (Some(cell_size), self.settings().1, self.settings().2, self.settings().3, self.settings().4),
    {
        DenseSamplerBuilder { cell_size: Some(cell_size), ..self }
    }

    /// Set the bounds of the grid.
    pub fn with_bounds(self, bounds: BoundingBox<T>) -> (b: Self)
        ensures
            b.settings() == (self.settings().0, Some(bounds), self.settings().2, self.settings().3, self.settings().4),
    {
        DenseSamplerBuilder { bounds: Some(bounds), ..self }
    }

    /// Set the number of smoothing passes.
    pub fn with_smoothing_iter(self, smoothing_iter: u32) -> (b: Self)
        ensures
            b.settings() == (self.settings().0, self.settings().1, smoothing_iter, self.settings().3, self.settings().4),
    {
        DenseSamplerBuilder { smoothing_iter, ..self }
    }

    /// Set the smoothing factor.
    pub fn with_smoothing_factor(self, smoothing_factor: T) -> (b: Self)
        ensures
            b.settings() == (self.settings().0, self.settings().1, self.settings().2, smoothing_factor, self.settings().4),
    {
        DenseSamplerBuilder { smoothing_factor, ..self }
    }

    /// Set whether the faces of the grid are padded with zero after sampling.
    pub fn with_padding(self, padding: bool) -> (b: Self)
        ensures
            b.settings() == (self.settings().0, self.settings().1, self.settings().2, self.settings().3, padding),
    {
        DenseSamplerBuilder { padding, ..self }
    }
}

impl<T: Float> DenseSamplerBuilder<T> {
    /// A builder without bounds or cell size, no smoothing passes, a smoothing factor of
    /// one half and no padding.
    pub fn new() -> (b: Self)
        ensures
            b.settings().0 is None,
            b.settings().1 is None,
            b.settings().2 == 0,
            !b.settings().4,
    {
        DenseSamplerBuilder {
            cell_size: None,
            bounds: None,
            smoothing_iter: 0,
            smoothing_factor: quotient(one(), from_usize(2)),
            padding: false,
        }
    }

    /// Build the sampler, with a field of zeros over the bounds.
    ///
    /// Fails when the bounds or the cell size are missing, or when the bounds have no
    /// grid of that cell size (see [`DenseField::point_count`]).
    pub fn build(self) -> (r: Result<DenseSampler<T>, &'static str>)
        ensures
            self.settings().1 is None ==> (r matches Err(e) && e@ == "bounds is required"@),
            self.settings().1 is Some && self.settings().0 is None ==> (r matches Err(e) && e@
                == "cell size is required"@),
            self.settings().1 is Some && self.settings().0 is Some && r is Err ==> r->Err_0@
                == "Failed to get point count from bounds. Make sure the bounds have a positive size in all directions."@,
            r matches Ok(s) ==> s.settings() == (self.settings().2, self.settings().3, self.settings().4)
                && s.grid().wf() && s.grid().origin_point() == self.settings().1->0.min && s.grid().spacing()
                == self.settings().0->0,
    {
        let bounds = match self.bounds {
            Some(b) => b,
            None => {
                return Err("bounds is required");
            },
        };
        let cell_size = match self.cell_size {
            Some(c) => c,
            None => {
                return Err("cell size is required");
            },
        };
        let dense_field = match DenseField::from_bounds(&bounds, cell_size) {
            Some(f) => f,
            None => {
                return Err(
                    "Failed to get point count from bounds. Make sure the bounds have a positive size in all directions.",
                );
            },
        };
        Ok(
            DenseSampler {
                smoothing_iter: self.smoothing_iter,
                smoothing_factor: self.smoothing_factor,
                padding: self.padding,
                dense_field,
            },
        )
    }
}

impl<T> DenseSampler<T> {
    /// The smoothing passes, smoothing factor and padding applied after sampling.
    pub closed spec fn settings(self) -> (u32, T, bool) {
        (self.smoothing_iter, self.smoothing_factor, self.padding)
    }

    /// The field sampled into.
    pub closed spec fn grid(self) -> DenseField<T> {
        self.dense_field
    }

    /// The field of the sampler.
    pub fn field(&self) -> (f: &DenseField<T>)
        ensures
            *f == self.grid(),
    {
        &self.dense_field
    }
}

impl<T: Float> DenseSampler<T> {
    /// A builder for a sampler.
    pub fn builder() -> (b: DenseSamplerBuilder<T>)
        ensures
            b.settings().0 is None,
            b.settings().1 is None,
            b.settings().2 == 0,
            !b.settings().4,
    {
        DenseSamplerBuilder::new()
    }
}

impl<T: Float + FloatConst + Send + Sync> DenseSampler<T> {
    /// Sample the model's component `component_tag` over the grid, then pad the faces of
    /// the grid with zero if asked, then smooth if asked.
    ///
    /// Fails as [`ImplicitModel::compile`] does where the component cannot be computed.
    pub fn sample_field_for_component(&mut self, model: &ImplicitModel<T>, component_tag: &str) -> (r: Result<
        &DenseField<T>,
        ModelError,
    >)
        requires
            old(self).grid().wf(),
            model.wf(),
        ensures
            final(self).grid().wf(),
            final(self).settings() == old(self).settings(),
            final(self).grid().dims() == old(self).grid().dims(),
            final(self).grid().origin_point() == old(self).grid().origin_point(),
            final(self).grid().spacing() == old(self).grid().spacing(),
            r is Ok <==> model.computable(component_tag@),
            match r {
                Ok(f) => *f == final(self).grid(),
                Err(e) => model.build_error(component_tag@, e) && *final(self) == *old(self),
            },
    {
        let graph = match model.compile(component_tag) {
            Ok(g) => g,
            Err(e) => {
                return Err(e);
            },
        };
        proof {
            let order = choose|order: Seq<Seq<char>>| #[trigger] model.dependency_order(component_tag@, order)
                && model.graph_matches(component_tag@, order, graph);
            assert(graph.nodes().len() == order.len());
        }
        self.dense_field.sample_from_graph(&graph);
        if self.padding {
            self.dense_field.padding(zero());
        }
        if self.smoothing_iter > 0 {
            self.dense_field.smooth_par(self.smoothing_factor, self.smoothing_iter);
        }
        Ok(&self.dense_field)
    }

    /// Sample the model's default output, as
    /// [`DenseSampler::sample_field_for_component`] does.
    ///
    /// Fails with [`ModelError::Custom`] when the model has no default output.
    pub fn sample_field(&mut self, model: &ImplicitModel<T>) -> (r: Result<&DenseField<T>, ModelError>)
        requires
            old(self).grid().wf(),
            model.wf(),
        ensures
            final(self).grid().wf(),
            final(self).settings() == old(self).settings(),
            final(self).grid().dims() == old(self).grid().dims(),
            match model.default_tag() {
                Some(t) => (r is Ok <==> model.computable(t)) && (r matches Err(e) ==> model.build_error(t, e)),
                None => r matches Err(e) && e is Custom,
            },
    {
        match model.get_default_output() {
            Some(tag) => self.sample_field_for_component(model, tag),
            None => Err(ModelError::Custom(String::from_str("No default output defined."))),
        }
    }
}

/// Samples a model over a sparse field: leaves of dense values only in the cells where the
/// model may take values in a range, by default `[-0.1, 0.1]`.
#[verifier::reject_recursive_types(T)]
pub struct SparseSampler<T> {
    min_val: T,
    max_val: T,
    field: SparseField<T>,
}

/// The default upper end of the range sampled densely: one tenth.
fn default_max<T: Float>() -> T {
    quotient(one(), from_usize(10))
}

/// The default lower end of the range sampled densely: minus one tenth.
fn default_min<T: Float>() -> T {
    negate(default_max())
}

/// Builder of a [`SparseSampler`]: bounds and a configuration are required; the range of
/// values to sample densely is optional.
#[derive(Debug, Clone, Copy)]
pub struct SparseSamplerBuilder<T> {
    max_val: Option<T>,
    min_val: Option<T>,
    bounds: Option<BoundingBox<T>>,
    sparse_config: Option<SparseFieldConfig<T>>,
}

impl<T> SparseSamplerBuilder<T> {
    /// The settings: upper and lower end of the range, bounds and configuration.
    pub closed spec fn settings(self) -> (Option<T>, Option<T>, Option<BoundingBox<T>>, Option<SparseFieldConfig<T>>) {
        (self.max_val, self.min_val, self.bounds, self.sparse_config)
    }

    /// Set the upper end of the range of values sampled densely.
    pub fn with_max_val(self, max_val: T) -> (b: Self)
        ensures
            b.settings() == (Some(max_val), self.settings().1, self.settings().2, self.settings().3),
    {
        SparseSamplerBuilder { max_val: Some(max_val), ..self }
    }

    /// Set the lower end of the range of values sampled densely.
    pub fn with_min_val(self, min_val: T) -> (b: Self)
        ensures
            b.settings() == (self.settings().0, Some(min_val), self.settings().2, self.settings().3),
    {
        SparseSamplerBuilder { min_val: Some(min_val), ..self }
    }

    /// Set the box to sample.
    pub fn with_bounds(self, bounds: BoundingBox<T>) -> (b: Self)
        ensures
            b.settings() == (self.settings().0, self.settings().1, Some(bounds), self.settings().3),
    {
        SparseSamplerBuilder { bounds: Some(bounds), ..self }
    }

    /// Set the configuration of the sparse field.
    pub fn with_config(self, config: SparseFieldConfig<T>) -> (b: Self)
        ensures
            b.settings() == (self.settings().0, self.settings().1, self.settings().2, Some(config)),
    {
        SparseSamplerBuilder { sparse_config: Some(config), ..self }
    }
}

impl<T: Float> SparseSamplerBuilder<T> {
    /// A builder with the default range, `[-0.1, 0.1]`, and neither bounds nor
    /// configuration.
    pub fn new() -> (b: Self)
        ensures
            b.settings().0 is Some,
            b.settings().1 is Some,
            b.settings().2 is None,
            b.settings().3 is None,
    {
        SparseSamplerBuilder { max_val: Some(default_max()), min_val: Some(default_min()), bounds: None, sparse_config: None }
    }

    /// Build the sampler: a sparse field with the configuration, its internal nodes
    /// covering the bounds (see [`SparseField::init_bounds`]).
    ///
    /// Fails with [`ModelError::Custom`] when the bounds or the configuration are missing,
    /// or when the field cannot cover the bounds.
    pub fn build(self) -> (r: Result<SparseSampler<T>, ModelError>)
        ensures
            self.settings().2 is None ==> r is Err,
            self.settings().3 is None ==> r is Err,
            r matches Err(e) ==> e is Custom,
            r matches Ok(s) ==> {
                &&& self.settings().0 matches Some(v) ==> s.range().1 == v
                &&& self.settings().1 matches Some(v) ==> s.range().0 == v
                &&& s.grid().wf()
                &&& s.grid().settings() == self.settings().3->0
                &&& s.grid().node_counts().0 >= 1 && s.grid().node_counts().1 >= 1 && s.grid().node_counts().2 >= 1
                &&& forall|m: int|
                    0 <= m < s.grid().internal_nodes().len() ==> fresh_node(
                        #[trigger] s.grid().internal_nodes()[m],
                        s.grid().settings().internal_size,
                    )
            },
    {
        let bounds = match self.bounds {
            Some(b) => b,
            None => {
                return Err(ModelError::Custom(String::from_str("bounds is required")));
            },
        };
        let sparse_config = match self.sparse_config {
            Some(c) => c,
            None => {
                return Err(ModelError::Custom(String::from_str("config is required")));
            },
        };
        let min_val = match self.min_val {
            Some(v) => v,
            None => default_min(),
        };
        let max_val = match self.max_val {
            Some(v) => v,
            None => default_max(),
        };
        SparseSampler::new(min_val, max_val, bounds, sparse_config)
    }
}

impl<T> SparseSampler<T> {
    /// The lower and upper end of the range of values sampled densely.
    pub closed spec fn range(self) -> (T, T) {
        (self.min_val, self.max_val)
    }

    /// The field sampled into.
    pub closed spec fn grid(self) -> SparseField<T> {
        self.field
    }

    /// The field of the sampler.
    pub fn field(&self) -> (f: &SparseField<T>)
        ensures
            *f == self.grid(),
    {
        &self.field
    }
}

impl<T: Float> SparseSampler<T> {
    /// A sampler with a sparse field over the bounds.
    fn new(min_val: T, max_val: T, bounds: BoundingBox<T>, sparse_config: SparseFieldConfig<T>) -> (r: Result<
        Self,
        ModelError,
    >)
        ensures
            r matches Err(e) ==> e is Custom,
            r matches Ok(s) ==> {
                &&& s.range() == (min_val, max_val)
                &&& s.grid().wf()
                &&& s.grid().settings() == sparse_config
                &&& s.grid().node_counts().0 >= 1 && s.grid().node_counts().1 >= 1 && s.grid().node_counts().2 >= 1
                &&& forall|m: int|
                    0 <= m < s.grid().internal_nodes().len() ==> fresh_node(
                        #[trigger] s.grid().internal_nodes()[m],
                        s.grid().settings().internal_size,
                    )
            },
    {
        let mut field = SparseField::new(sparse_config);
        match field.init_bounds(&bounds) {
            Ok(_) => Ok(SparseSampler { min_val, max_val, field }),
            Err(e) => Err(e),
        }
    }

    /// A builder for a sampler.
    pub fn builder() -> (b: SparseSamplerBuilder<T>)
        ensures
            b.settings().0 is Some,
            b.settings().1 is Some,
            b.settings().2 is None,
            b.settings().3 is None,
    {
        SparseSamplerBuilder::new()
    }
}

impl<T: Float + FloatConst + Send + Sync> SparseSampler<T> {
    /// Sample the model's component `component_tag` over the sparse field (see
    /// [`SparseField::sample_from_graph`]), with the sampler's range.
    ///
    /// Fails as [`ImplicitModel::compile`] does where the component cannot be computed,
    /// and with [`ModelError::Custom`] where the field has no nodes; nothing changes then.
    pub fn sample_field_for_component(&mut self, model: &ImplicitModel<T>, component_tag: &str) -> (r: Result<
        &SparseField<T>,
        ModelError,
    >)
        requires
            old(self).grid().wf(),
            model.wf(),
        ensures
            final(self).grid().wf(),
            final(self).range() == old(self).range(),
            final(self).grid().settings() == old(self).grid().settings(),
            final(self).grid().node_counts() == old(self).grid().node_counts(),
            r is Ok <==> model.computable(component_tag@) && old(self).grid().internal_nodes().len() > 0,
            match r {
                Ok(f) => {
                    &&& *f == final(self).grid()
                    &&& final(self).grid().internal_nodes().len() == old(self).grid().internal_nodes().len()
                    &&& forall|m: int|
                        0 <= m < old(self).grid().internal_nodes().len() ==> {
                            let before = old(self).grid().internal_nodes()[m];
                            let after = #[trigger] final(self).grid().internal_nodes()[m];
                            &&& after.cells().len() == before.cells().len()
                            &&& forall|c: int|
                                0 <= c < before.cells().len() ==> sampled_cell(
                                    before.cells()[c],
                                    #[trigger] after.cells()[c],
                                    old(self).grid().settings().leaf_size,
                                    model.component_map()[component_tag@],
                                )
                        }
                },
                Err(e) => {
                    &&& *final(self) == *old(self)
                    &&& model.computable(component_tag@) ==> e is Custom
                    &&& !model.computable(component_tag@) ==> model.build_error(component_tag@, e)
                },
            },
    {
        let graph = match model.compile(component_tag) {
            Ok(g) => g,
            Err(e) => {
                return Err(e);
            },
        };
        proof {
            let order = choose|order: Seq<Seq<char>>| #[trigger] model.dependency_order(component_tag@, order)
                && model.graph_matches(component_tag@, order, graph);
            assert(graph.nodes().len() == order.len());
            assert(graph.nodes().last() == graph.nodes()[order.len() - 1]);
        }
        match self.field.sample_from_graph(&graph, self.min_val, self.max_val) {
            Ok(_) => Ok(&self.field),
            Err(e) => Err(e),
        }
    }

    /// Sample the model's default output, as
    /// [`SparseSampler::sample_field_for_component`] does.
    ///
    /// Fails with [`ModelError::Custom`] when the model has no default output.
    pub fn sample_field(&mut self, model: &ImplicitModel<T>) -> (r: Result<&SparseField<T>, ModelError>)
        requires
            old(self).grid().wf(),
            model.wf(),
        ensures
            final(self).grid().wf(),
            final(self).range() == old(self).range(),
            final(self).grid().settings() == old(self).grid().settings(),
            final(self).grid().node_counts() == old(self).grid().node_counts(),
            match model.default_tag() {
                Some(t) => (r is Ok <==> model.computable(t) && old(self).grid().internal_nodes().len() > 0) && (r matches Err(
                    e,
                ) ==> (!model.computable(t) ==> model.build_error(t, e))),
                None => r matches Err(e) && e is Custom,
            },
    {
        match model.get_default_output() {
            Some(tag) => self.sample_field_for_component(model, tag),
            None => Err(ModelError::Custom(String::from_str("No default output defined."))),
        }
    }
}

} // verus!

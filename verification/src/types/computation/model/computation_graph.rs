use vstd::prelude::*;
use num_traits::{Float, FloatConst};

use super::{ComponentId, ModelComponent};

verus! {

/// The components to compute for one output of a model, in an order where every component
/// comes after the components that feed its inputs. The output is the last component.
#[verifier::reject_recursive_types(T)]
pub struct ComputationGraph<'a, T> {
    components: Vec<&'a ModelComponent<T>>,
    inputs: Vec<Vec<ComponentId>>,
}

impl<'a, T> ComputationGraph<'a, T> {
    /// The components, in computation order.
    pub closed spec fn nodes(self) -> Seq<ModelComponent<T>> {
        self.components@.map_values(|c: &ModelComponent<T>| *c)
    }

    /// For each component, the positions of the components that feed its inputs.
    pub closed spec fn input_ids(self) -> Seq<Seq<usize>> {
        self.inputs@.map_values(|v: Vec<ComponentId>| v@.map_values(|id: ComponentId| id.0))
    }

    /// Each component only takes inputs from components before it, and an operation has
    /// at least as many inputs as it uses.
    pub open spec fn wf(self) -> bool {
        &&& self.nodes().len() == self.input_ids().len()
        &&& forall|k: int, j: int|
            0 <= k < self.input_ids().len() && 0 <= j < self.input_ids()[k].len() ==> #[trigger] self.input_ids()[k][j]
                < k
        &&& forall|k: int|
            0 <= k < self.nodes().len() && (#[trigger] self.nodes()[k]) is Operation ==> self.input_ids()[k].len()
                >= self.nodes()[k].input_count()
    }

    /// Create a new, empty, computation graph.
    pub fn new() -> (graph: Self)
        ensures
            graph.wf(),
            graph.nodes() == Seq::<ModelComponent<T>>::empty(),
            graph.input_ids() == Seq::<Seq<usize>>::empty(),
    {
        let graph = Self { components: Vec::new(), inputs: Vec::new() };
        assert(graph.nodes() =~= Seq::<ModelComponent<T>>::empty());
        assert(graph.input_ids() =~= Seq::<Seq<usize>>::empty());
        graph
    }

    /// Append a component of the model with the positions of the components that feed
    /// its inputs.
    pub fn add_component(&mut self, component: &'a ModelComponent<T>, inputs: Vec<ComponentId>)
        ensures
            final(self).nodes() == old(self).nodes().push(*component),
            final(self).input_ids() == old(self).input_ids().push(inputs@.map_values(|id: ComponentId| id.0)),
    {
        self.components.push(component);
        self.inputs.push(inputs);
        assert(self.nodes() =~= old(self).nodes().push(*component));
        assert(self.input_ids() =~= old(self).input_ids().push(inputs@.map_values(|id: ComponentId| id.0)));
    }

    /// Evaluate the graph at a coordinate: each component in turn, on the values of the
    /// components that feed it. The value of the last component is returned.
    pub fn evaluate_at_coord(&self, x: T, y: T, z: T) -> (value: T) where T: Float + FloatConst
        requires
            self.wf(),
            self.nodes().len() > 0,
        ensures
            self.nodes().last() is Constant ==> value == self.nodes().last()->Constant_0,
            self.nodes().last().exact_value(x, y, z) matches Some(v) ==> value == v,
    {
        let mut values: Vec<T> = Vec::new();
        let mut k: usize = 0;
        while k < self.components.len()
            invariant
                self.wf(),
                k <= self.components@.len(),
                values@.len() == k,
                forall|m: int| 0 <= m < k && (#[trigger] self.nodes()[m]) is Constant ==> values@[m]
                    == self.nodes()[m]->Constant_0,
                forall|m: int| 0 <= m < k ==> ((#[trigger] self.nodes()[m]).exact_value(x, y, z) matches Some(v)
                    ==> values@[m] == v),
            decreases self.components@.len() - k,
        {
            let ids = &self.inputs[k];
            assert(self.input_ids()[k as int] == ids@.map_values(|id: ComponentId| id.0));
            let mut inputs: Vec<T> = Vec::new();
            let mut j: usize = 0;
            while j < ids.len()
                invariant
                    self.wf(),
                    k < self.components@.len(),
                    values@.len() == k,
                    *ids == self.inputs@[k as int],
                    self.input_ids()[k as int] == ids@.map_values(|id: ComponentId| id.0),
                    j <= ids@.len(),
                    inputs@.len() == j,
                decreases ids@.len() - j,
            {
                assert(self.input_ids()[k as int][j as int] == ids@[j as int].0);
                let id = ids[j].0;
                inputs.push(values[id]);
                j = j + 1;
            }
            let component = self.components[k];
            assert(*component == self.nodes()[k as int]);
            let value = component.compute(x, y, z, inputs.as_slice());
            values.push(value);
            k = k + 1;
        }
        values[values.len() - 1]
    }
}

} // verus!

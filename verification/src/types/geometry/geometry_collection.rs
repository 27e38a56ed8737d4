use vstd::prelude::*;
use num_traits::{Float, FloatConst};

use crate::types::computation::traits::{ImplicitComponent, ImplicitFunction};

use super::traits::{SignedDistance, SignedQuery, SpatialQuery};
use super::{Mesh, Octree, Triangle, Vec3};

verus! {

/// A fixed, queryable collection of objects, stored in an octree.
#[verifier::reject_recursive_types(T)]
pub struct GeometryCollection<Q, T> {
    tree: Octree<Q, T>,
}

impl<Q, T> GeometryCollection<Q, T> {
    /// The tree is built over its objects.
    #[verifier::type_invariant]
    spec fn built(self) -> bool {
        &&& self.tree.wf()
        &&& !(self.tree.root_node() is Empty)
    }

    /// The objects of the collection.
    pub closed spec fn items(self) -> Seq<Q> {
        self.tree.items()
    }
}

impl<Q: SpatialQuery<T>, T: Float> GeometryCollection<Q, T> {
    /// Build a collection from a non-empty list of objects, in an octree of depth at most
    /// 10 with at most 12 objects per leaf.
    pub fn build(objects: Vec<Q>) -> (collection: Self)
        requires
            objects@.len() > 0,
        ensures
            collection.items() == objects@,
    {
        let tree = Octree::new().with_max_depth(10).with_max_leaf_size(12).with_objects(objects.as_slice());
        assert(Seq::<Q>::empty() + objects@ =~= objects@);
        let tree = tree.build();
        GeometryCollection { tree }
    }

    /// The closest point on any object of the collection to `query_point`, with the
    /// object it lies on: one of the collection's objects, or the default object where no
    /// object lies nearer than the largest finite distance.
    pub fn closest_point(&self, query_point: &Vec3<T>) -> (r: (Vec3<T>, Q))
        ensures
            self.items().contains(r.1) || r.1.is_default(),
    {
        proof {
            use_type_invariant(self);
        }
        match self.tree.closest_point(query_point) {
            Some(found) => found,
            None => (*query_point, Q::default()),
        }
    }
}

impl<T: Float> GeometryCollection<Triangle<T>, T> {
    /// A collection of the triangles of a mesh with at least one face.
    pub fn from_mesh(mesh: &Mesh<T>) -> (collection: Self)
        requires
            mesh.faces_valid(),
            mesh.face_list().len() > 0,
        ensures
            collection.items().len() == mesh.face_list().len(),
    {
        let triangles = mesh.as_triangles();
        GeometryCollection::build(triangles)
    }
}

impl<Q: SignedQuery<T>, T> SignedDistance<T> for GeometryCollection<Q, T> {
    fn signed_distance(&self, x: T, y: T, z: T) -> T where T: Float {
        proof {
            use_type_invariant(self);
        }
        self.tree.signed_distance(&Vec3::new(x, y, z))
    }
}

impl<Q: SignedQuery<T> + Send + Sync, T: Send + Sync> ImplicitFunction<T> for GeometryCollection<Q, T> {
    open spec fn kind(&self) -> &'static str {
        "GeometryCollection"
    }

    fn eval(&self, x: T, y: T, z: T) -> T where T: Float + FloatConst {
        self.signed_distance(x, y, z)
    }
}

impl<Q: SignedQuery<T> + Send + Sync, T: Send + Sync> ImplicitComponent<T> for GeometryCollection<Q, T> {
    fn name(&self) -> &'static str {
        "GeometryCollection"
    }
}

} // verus!

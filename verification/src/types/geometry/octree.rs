use vstd::prelude::*;
use num_traits::Float;

use crate::utils::float::{from_usize, lt, max_value, nan, negate, one, quotient, zero};

use super::traits::{SignedQuery, SpatialQuery};
use super::{BoundingBox, Vec3};

verus! {

/// A node of an octree: empty, a leaf holding the positions of the objects that touch its
/// bounds, or an internal node with eight children, one per octant of its bounds.
#[derive(Debug)]
#[verifier::reject_recursive_types(T)]
pub enum OctreeNode<T> {
    Empty,
    Internal { bounds: BoundingBox<T>, children: Vec<OctreeNode<T>> },
    Leaf { bounds: BoundingBox<T>, object_indices: Vec<usize> },
}

impl<T> OctreeNode<T> {
    /// Every object position held in a leaf below this node is below `n`.
    pub open spec fn indices_below(self, n: nat) -> bool
        decreases self,
    {
        match self {
            OctreeNode::Empty => true,
            OctreeNode::Leaf { object_indices, .. } => forall|i: int|
                0 <= i < object_indices@.len() ==> #[trigger] object_indices@[i] < n,
            OctreeNode::Internal { children, .. } => forall|i: int|
                0 <= i < children@.len() ==> (#[trigger] children@[i]).indices_below(n),
        }
    }

    /// The bounds of the leaves below this node, depth first, children in order.
    pub open spec fn leaf_bounds(self) -> Seq<BoundingBox<T>>
        decreases self, 0nat,
    {
        match self {
            OctreeNode::Empty => Seq::empty(),
            OctreeNode::Leaf { bounds, .. } => seq![bounds],
            OctreeNode::Internal { children, .. } => {
                proof {
                    assert(decreases_to!(self => children));
                    assert(decreases_to!(children => children@));
                }
                Self::leaf_bounds_of(children@)
            },
        }
    }

    /// The bounds of the leaves below each of `nodes`, in order.
    pub open spec fn leaf_bounds_of(nodes: Seq<OctreeNode<T>>) -> Seq<BoundingBox<T>>
        decreases nodes, 1nat,
    {
        if nodes.len() == 0 {
            Seq::empty()
        } else {
            proof {
                assert(decreases_to!(nodes => nodes.subrange(0, nodes.len() - 1)));
                assert(decreases_to!(nodes => nodes[nodes.len() - 1]));
            }
            Self::leaf_bounds_of(nodes.subrange(0, nodes.len() - 1)) + nodes[nodes.len() - 1].leaf_bounds()
        }
    }

    /// The bounds of the node; none for an empty node.
    pub fn bounds(&self) -> (b: Option<BoundingBox<T>>) where T: Copy
        ensures
            match *self {
                OctreeNode::Empty => b is None,
                OctreeNode::Internal { bounds, .. } => b == Some(bounds),
                OctreeNode::Leaf { bounds, .. } => b == Some(bounds),
            },
    {
        match self {
            OctreeNode::Empty => None,
            OctreeNode::Internal { bounds, .. } => Some(*bounds),
            OctreeNode::Leaf { bounds, .. } => Some(*bounds),
        }
    }

    /// The bounds of the leaves below this node, depth first, children in order.
    pub fn all_bounds(&self) -> (all: Vec<BoundingBox<T>>) where T: Copy
        ensures
            all@ == self.leaf_bounds(),
    {
        let mut all: Vec<BoundingBox<T>> = Vec::new();
        self.collect_bounds(&mut all);
        all
    }

    /// Append the bounds of the leaves below this node.
    fn collect_bounds(&self, all: &mut Vec<BoundingBox<T>>) where T: Copy
        ensures
            final(all)@ == old(all)@ + self.leaf_bounds(),
        decreases self,
    {
        match self {
            OctreeNode::Empty => {
                assert(old(all)@ + self.leaf_bounds() =~= old(all)@);
            },
            OctreeNode::Internal { children, .. } => {
                let mut i: usize = 0;
                assert(children@.subrange(0, 0) =~= Seq::<OctreeNode<T>>::empty());
                assert(old(all)@ + Self::leaf_bounds_of(children@.subrange(0, 0)) =~= old(all)@);
                while i < children.len()
                    invariant
                        *self == (OctreeNode::Internal { bounds: self->Internal_bounds, children: *children }),
                        i <= children@.len(),
                        all@ == old(all)@ + Self::leaf_bounds_of(children@.subrange(0, i as int)),
                    decreases children@.len() - i,
                {
                    proof {
                        let kids = (*self)->Internal_children;
                        assert(decreases_to!(*self => (*self)->Internal_children));
                        assert(decreases_to!(kids => kids@));
                        assert(decreases_to!(kids@ => kids@[i as int]));
                    }
                    let ghost before = all@;
                    children[i].collect_bounds(all);
                    proof {
                        let next = children@.subrange(0, i + 1);
                        assert(next.subrange(0, next.len() - 1) =~= children@.subrange(0, i as int));
                        assert(next[next.len() - 1] == children@[i as int]);
                        assert(Self::leaf_bounds_of(next) == Self::leaf_bounds_of(children@.subrange(0, i as int))
                            + children@[i as int].leaf_bounds());
                        assert(all@ =~= old(all)@ + Self::leaf_bounds_of(next));
                    }
                    i = i + 1;
                }
                assert(children@.subrange(0, children@.len() as int) =~= children@);
            },
            OctreeNode::Leaf { bounds, .. } => {
                all.push(*bounds);
                assert(all@ =~= old(all)@ + self.leaf_bounds());
            },
        }
    }
}

impl<T: Float> OctreeNode<T> {
    /// Build the node over `bounds` for the objects at `object_indices`: empty without
    /// objects, a leaf with at most `max_triangles` objects or at depth zero, else an
    /// internal node whose eight children split the bounds into octants, each holding the
    /// objects whose bounds meet it.
    pub fn build<Q: SpatialQuery<T>>(
        bounds: BoundingBox<T>,
        object_indices: Vec<usize>,
        max_depth: usize,
        max_triangles: usize,
        all_objects: &[Q],
    ) -> (node: OctreeNode<T>)
        requires
            forall|i: int| 0 <= i < object_indices@.len() ==> #[trigger] object_indices@[i] < all_objects@.len(),
        ensures
            node.indices_below(all_objects@.len() as nat),
            object_indices@.len() == 0 <==> node is Empty,
            object_indices@.len() > 0 && (object_indices@.len() <= max_triangles || max_depth == 0) ==> node
                == (OctreeNode::Leaf { bounds, object_indices }),
            node is Internal ==> node->Internal_children@.len() == 8,
        decreases max_depth,
    {
        if object_indices.len() == 0 {
            return OctreeNode::Empty;
        } else if object_indices.len() <= max_triangles || max_depth == 0 {
            return OctreeNode::Leaf { bounds, object_indices };
        }
        let half: T = quotient(one(), from_usize(2));
        let center = bounds.min.add_vec(bounds.max.sub_vec(bounds.min).scale(half));
        let mut children: Vec<OctreeNode<T>> = Vec::new();
        let mut i: usize = 0;
        while i < 8
            invariant
                i <= 8,
                children@.len() == i,
                max_depth > 0,
                forall|k: int| 0 <= k < object_indices@.len() ==> #[trigger] object_indices@[k] < all_objects@.len(),
                forall|k: int| 0 <= k < children@.len() ==> (#[trigger] children@[k]).indices_below(
                    all_objects@.len() as nat,
                ),
            decreases 8 - i,
        {
            let offset = Vec3::new(
                if i & 1 == 0 {
                    zero()
                } else {
                    crate::utils::float::difference(center.x, bounds.min.x)
                },
                if i & 2 == 0 {
                    zero()
                } else {
                    crate::utils::float::difference(center.y, bounds.min.y)
                },
                if i & 4 == 0 {
                    zero()
                } else {
                    crate::utils::float::difference(center.z, bounds.min.z)
                },
            );
            let child_bounds = BoundingBox::new(bounds.min.add_vec(offset), center.add_vec(offset));
            let mut child_indices: Vec<usize> = Vec::new();
            let mut k: usize = 0;
            while k < object_indices.len()
                invariant
                    k <= object_indices@.len(),
                    forall|m: int| 0 <= m < object_indices@.len() ==> #[trigger] object_indices@[m] < all_objects@.len(),
                    forall|m: int| 0 <= m < child_indices@.len() ==> #[trigger] child_indices@[m] < all_objects@.len(),
                decreases object_indices@.len() - k,
            {
                let index = object_indices[k];
                if all_objects[index].bounds().intersects(&child_bounds) {
                    child_indices.push(index);
                }
                k = k + 1;
            }
            let child = OctreeNode::build(child_bounds, child_indices, max_depth - 1, max_triangles, all_objects);
            children.push(child);
            i = i + 1;
        }
        OctreeNode::Internal { bounds, children }
    }

    /// Search below this node for an object closer to `point` than `best_dist_sq`, the
    /// squared distance of the best candidate so far, updating the candidate. Children are
    /// visited nearest first, and skipped once they cannot hold a closer point.
    fn closest_point_recursive<Q: SpatialQuery<T>>(
        &self,
        point: &Vec3<T>,
        best_dist_sq: &mut T,
        best_point: &mut Vec3<T>,
        best_object: &mut Q,
        all_objects: &[Q],
    )
        requires
            !(*self is Empty),
            self.indices_below(all_objects@.len() as nat),
        ensures
            *final(best_object) == *old(best_object) || exists|i: int|
                0 <= i < all_objects@.len() && *final(best_object) == #[trigger] all_objects@[i],
        decreases self,
    {
        match self {
            OctreeNode::Empty => {},
            OctreeNode::Internal { children, .. } => {
                // Children with bounds, with the squared distance from the point to them,
                // nearest first.
                let mut candidates: Vec<(usize, T)> = Vec::new();
                let mut c: usize = 0;
                while c < children.len()
                    invariant
                        c <= children@.len(),
                        forall|m: int| 0 <= m < candidates@.len() ==> (#[trigger] candidates@[m]).0 < children@.len()
                            && !(children@[candidates@[m].0 as int] is Empty),
                    decreases children@.len() - c,
                {
                    if let Some(b) = children[c].bounds() {
                        let dist_sq = b.closest_point(point).distance_to_vec3_squared(point);
                        if lt(dist_sq, *best_dist_sq) {
                            let mut p: usize = 0;
                            while p < candidates.len() && !lt(dist_sq, candidates[p].1)
                                invariant
                                    p <= candidates@.len(),
                                decreases candidates@.len() - p,
                            {
                                p = p + 1;
                            }
                            candidates.insert(p, (c, dist_sq));
                        }
                    }
                    c = c + 1;
                }
                let ghost start_object = *best_object;
                let mut q: usize = 0;
                while q < candidates.len()
                    invariant
                        *self == (OctreeNode::Internal { bounds: self->Internal_bounds, children: *children }),
                        self.indices_below(all_objects@.len() as nat),
                        q <= candidates@.len(),
                        forall|m: int| 0 <= m < candidates@.len() ==> (#[trigger] candidates@[m]).0 < children@.len()
                            && !(children@[candidates@[m].0 as int] is Empty),
                        *best_object == *old(best_object) || exists|i: int|
                            0 <= i < all_objects@.len() && *best_object == #[trigger] all_objects@[i],
                    decreases candidates@.len() - q,
                {
                    let (child_index, closest_dist_sq) = candidates[q];
                    if !lt(closest_dist_sq, *best_dist_sq) {
                        break;
                    }
                    proof {
                        let kids = (*self)->Internal_children;
                        assert(decreases_to!(*self => (*self)->Internal_children));
                        assert(decreases_to!(kids => kids@));
                        assert(decreases_to!(kids@ => kids@[child_index as int]));
                        assert(kids@[child_index as int].indices_below(all_objects@.len() as nat));
                    }
                    children[child_index].closest_point_recursive(
                        point,
                        best_dist_sq,
                        best_point,
                        best_object,
                        all_objects,
                    );
                    q = q + 1;
                }
            },
            OctreeNode::Leaf { object_indices, .. } => {
                let mut k: usize = 0;
                while k < object_indices.len()
                    invariant
                        k <= object_indices@.len(),
                        forall|m: int| 0 <= m < object_indices@.len() ==> #[trigger] object_indices@[m]
                            < all_objects@.len(),
                        *best_object == *old(best_object) || exists|i: int|
                            0 <= i < all_objects@.len() && *best_object == #[trigger] all_objects@[i],
                    decreases object_indices@.len() - k,
                {
                    let index = object_indices[k];
                    let closest_point = all_objects[index].closest_point(point);
                    let dist_sq = point.distance_to_vec3_squared(&closest_point);
                    if lt(dist_sq, *best_dist_sq) {
                        *best_dist_sq = dist_sq;
                        *best_point = closest_point;
                        *best_object = all_objects[index];
                        if crate::utils::float::is_zero(*best_dist_sq) {
                            return;
                        }
                    }
                    k = k + 1;
                }
            },
        }
    }

    /// The closest point to `point` on the objects below this node, with the object it
    /// lies on.
    pub fn closest_point<Q: SpatialQuery<T>>(&self, point: &Vec3<T>, all_objects: &[Q]) -> (r: (Vec3<T>, Q))
        requires
            !(*self is Empty),
            self.indices_below(all_objects@.len() as nat),
        ensures
            all_objects@.contains(r.1) || r.1.is_default(),
    {
        let mut best_dist_sq: T = max_value();
        let mut best_point = *point;
        let mut best_object: Q = Q::default();
        self.closest_point_recursive(point, &mut best_dist_sq, &mut best_point, &mut best_object, all_objects);
        (best_point, best_object)
    }

    /// Append to `objects` the objects below this node whose closest point lies within
    /// `search_distance` of `point`, counting them in `num_objects`. Nodes whose bounds
    /// lie farther away are skipped.
    pub fn collect_nearby_objects<Q: SpatialQuery<T>>(
        &self,
        point: &Vec3<T>,
        search_distance: T,
        objects: &mut Vec<Q>,
        num_objects: &mut usize,
        all_objects: &[Q],
    )
        requires
            self.indices_below(all_objects@.len() as nat),
            *old(num_objects) <= old(objects)@.len(),
        ensures
            final(objects)@.len() - old(objects)@.len() == *final(num_objects) - *old(num_objects),
            final(objects)@.len() >= old(objects)@.len(),
            forall|k: int| 0 <= k < old(objects)@.len() ==> #[trigger] final(objects)@[k] == old(objects)@[k],
            forall|k: int| old(objects)@.len() <= k < final(objects)@.len() ==> all_objects@.contains(
                #[trigger] final(objects)@[k],
            ),
        decreases self,
    {
        let ghost before = objects@;
        let ghost count_before = *num_objects;
        match self {
            OctreeNode::Empty => {},
            OctreeNode::Internal { bounds, children } => {
                if lt(bounds.closest_point(point).distance_to_vec3(point), search_distance) {
                    let mut c: usize = 0;
                    while c < children.len()
                        invariant
                            *self == (OctreeNode::Internal { bounds: *bounds, children: *children }),
                            self.indices_below(all_objects@.len() as nat),
                            c <= children@.len(),
                            objects@.len() - before.len() == *num_objects - count_before,
                            count_before <= before.len(),
                            objects@.len() >= before.len(),
                            *num_objects >= count_before,
                            forall|k: int| 0 <= k < before.len() ==> #[trigger] objects@[k] == before[k],
                            forall|k: int| before.len() <= k < objects@.len() ==> all_objects@.contains(
                                #[trigger] objects@[k],
                            ),
                        decreases children@.len() - c,
                    {
                        proof {
                            let kids = (*self)->Internal_children;
                            assert(decreases_to!(*self => (*self)->Internal_children));
                            assert(decreases_to!(kids => kids@));
                            assert(decreases_to!(kids@ => kids@[c as int]));
                            assert(kids@[c as int].indices_below(all_objects@.len() as nat));
                        }
                        let ghost mid = objects@;
                        children[c].collect_nearby_objects(point, search_distance, objects, num_objects, all_objects);
                        proof {
                            assert forall|k: int| before.len() <= k < objects@.len() implies all_objects@.contains(
                                #[trigger] objects@[k],
                            ) by {
                                if k < mid.len() {
                                    assert(objects@[k] == mid[k]);
                                }
                            }
                            assert forall|k: int| 0 <= k < before.len() implies #[trigger] objects@[k] == before[k] by {
                                assert(objects@[k] == mid[k]);
                            }
                        }
                        c = c + 1;
                    }
                }
            },
            OctreeNode::Leaf { bounds, object_indices } => {
                if lt(bounds.closest_point(point).distance_to_vec3(point), search_distance) {
                    let mut k: usize = 0;
                    while k < object_indices.len()
                        invariant
                            k <= object_indices@.len(),
                            forall|m: int| 0 <= m < object_indices@.len() ==> #[trigger] object_indices@[m]
                                < all_objects@.len(),
                            objects@.len() - before.len() == *num_objects - count_before,
                            count_before <= before.len(),
                            objects@.len() >= before.len(),
                            *num_objects >= count_before,
                            forall|k: int| 0 <= k < before.len() ==> #[trigger] objects@[k] == before[k],
                            forall|m: int| before.len() <= m < objects@.len() ==> all_objects@.contains(
                                #[trigger] objects@[m],
                            ),
                        decreases object_indices@.len() - k,
                    {
                        let index = object_indices[k];
                        if lt(all_objects[index].closest_point(point).distance_to_vec3(point), search_distance) {
                            let ghost prev = objects@;
                            objects.push(all_objects[index]);
                            let _len = objects.len();
                            *num_objects = *num_objects + 1;
                            proof {
                                assert forall|m: int| before.len() <= m < objects@.len() implies all_objects@.contains(
                                    #[trigger] objects@[m],
                                ) by {
                                    if m < prev.len() {
                                        assert(objects@[m] == prev[m]);
                                    } else {
                                        assert(objects@[m] == all_objects@[index as int]);
                                    }
                                }
                                assert forall|m: int| 0 <= m < before.len() implies #[trigger] objects@[m] == before[m] by {
                                    assert(objects@[m] == prev[m]);
                                }
                            }
                        }
                        k = k + 1;
                    }
                }
            },
        }
    }

    /// Signed distance from `point` to the objects below this node: the distance to the
    /// closest point, negative where the point lies behind the surface normal there.
    pub fn signed_distance<Q: SignedQuery<T>>(&self, point: &Vec3<T>, all_objects: &[Q]) -> T
        requires
            !(*self is Empty),
            self.indices_below(all_objects@.len() as nat),
    {
        let (closest_point, closest_obj) = self.closest_point(point, all_objects);
        let direction = point.sub_vec(closest_point);
        let normal = closest_obj.closest_point_with_normal(&closest_point).1;
        if lt(normal.dot(&direction), zero()) {
            return negate(direction.magnitude());
        }
        direction.magnitude()
    }
}

/// An octree over a list of objects, for closest point and proximity queries.
#[derive(Debug)]
#[verifier::reject_recursive_types(T)]
pub struct Octree<Q, T> {
    objects: Vec<Q>,
    root: OctreeNode<T>,
    max_depth: usize,
    max_leaf_size: usize,
}

impl<Q, T> Octree<Q, T> {
    /// The objects of the tree.
    pub closed spec fn items(self) -> Seq<Q> {
        self.objects@
    }

    /// The root node.
    pub closed spec fn root_node(self) -> OctreeNode<T> {
        self.root
    }

    /// The maximum depth and the maximum number of objects of a leaf.
    pub closed spec fn limits(self) -> (usize, usize) {
        (self.max_depth, self.max_leaf_size)
    }

    /// Every leaf refers to objects of the tree.
    pub open spec fn wf(self) -> bool {
        self.root_node().indices_below(self.items().len())
    }

    /// An empty tree, not built, with a maximum depth of 10 and at most 24 objects per
    /// leaf.
    pub fn new() -> (tree: Self)
        ensures
            tree.wf(),
            tree.items().len() == 0,
            tree.root_node() is Empty,
            tree.limits() == (10usize, 24usize),
    {
        Self { objects: Vec::new(), root: OctreeNode::Empty, max_depth: 10, max_leaf_size: 24 }
    }

    /// The bounds of the leaves of the tree, depth first.
    pub fn all_bounds(&self) -> (all: Vec<BoundingBox<T>>) where T: Copy
        ensures
            all@ == self.root_node().leaf_bounds(),
    {
        self.root.all_bounds()
    }

    /// The bounds of the tree; none before it is built or without objects.
    pub fn bounds(&self) -> (b: Option<BoundingBox<T>>) where T: Copy
        ensures
            b is None <==> self.root_node() is Empty,
    {
        self.root.bounds()
    }

    /// Set the maximum depth of the tree.
    pub fn with_max_depth(self, max_depth: usize) -> (tree: Self)
        ensures
            tree.items() == self.items(),
            tree.root_node() == self.root_node(),
            tree.limits() == (max_depth, self.limits().1),
    {
        Octree { max_depth, ..self }
    }

    /// Set the maximum number of objects of a leaf.
    pub fn with_max_leaf_size(self, max_leaf_size: usize) -> (tree: Self)
        ensures
            tree.items() == self.items(),
            tree.root_node() == self.root_node(),
            tree.limits() == (self.limits().0, max_leaf_size),
    {
        Octree { max_leaf_size, ..self }
    }
}

impl<Q: Copy, T> Octree<Q, T> {
    /// Add objects to the tree; they are placed in it on the next build.
    pub fn with_objects(self, objects: &[Q]) -> (tree: Self)
        requires
            self.wf(),
        ensures
            tree.wf(),
            tree.items() == self.items() + objects@,
            tree.root_node() == self.root_node(),
            tree.limits() == self.limits(),
    {
        let mut tree = self;
        let mut i: usize = 0;
        while i < objects.len()
            invariant
                i <= objects@.len(),
                tree.objects@ == self.objects@ + objects@.subrange(0, i as int),
                tree.root == self.root,
                tree.max_depth == self.max_depth,
                tree.max_leaf_size == self.max_leaf_size,
            decreases objects@.len() - i,
        {
            tree.objects.push(objects[i]);
            i = i + 1;
            assert(tree.objects@ =~= self.objects@ + objects@.subrange(0, i as int));
        }
        assert(objects@.subrange(0, objects@.len() as int) =~= objects@);
        proof {
            lemma_indices_below_grow(self.root, self.objects@.len() as nat, tree.objects@.len() as nat);
        }
        tree
    }
}

/// A node whose objects are below `n` has them below any larger bound.
proof fn lemma_indices_below_grow<T>(node: OctreeNode<T>, n: nat, m: nat)
    requires
        node.indices_below(n),
        n <= m,
    ensures
        node.indices_below(m),
    decreases node,
{
    match node {
        OctreeNode::Internal { children, .. } => {
            assert forall|i: int| 0 <= i < children@.len() implies (#[trigger] children@[i]).indices_below(m) by {
                assert(decreases_to!(node => node->Internal_children));
                lemma_indices_below_grow(children@[i], n, m);
            }
        },
        _ => {},
    }
}

impl<Q: SpatialQuery<T>, T: Float> Octree<Q, T> {
    /// Build the tree over its objects, within their bounds grown by one tenth.
    pub fn build(self) -> (tree: Self)
        requires
            self.items().len() > 0,
        ensures
            tree.wf(),
            tree.items() == self.items(),
            tree.limits() == self.limits(),
            !(tree.root_node() is Empty),
    {
        let mut tree = self;
        let mut indices: Vec<usize> = Vec::new();
        let mut i: usize = 0;
        while i < tree.objects.len()
            invariant
                i <= tree.objects@.len(),
                indices@.len() == i,
                forall|k: int| 0 <= k < i ==> #[trigger] indices@[k] == k,
            decreases tree.objects@.len() - i,
        {
            indices.push(i);
            i = i + 1;
        }
        let bounds = BoundingBox::from_objects(tree.objects.as_slice()).offset(quotient(one(), from_usize(10)));
        let root = OctreeNode::build(bounds, indices, tree.max_depth, tree.max_leaf_size, tree.objects.as_slice());
        tree.root = root;
        tree
    }

    /// The closest point on the objects to `point`, with the object it lies on; none
    /// before the tree is built. The object is one of the tree's, or the default object
    /// where no object lies nearer than the largest finite distance.
    pub fn closest_point(&self, query_point: &Vec3<T>) -> (r: Option<(Vec3<T>, Q)>)
        requires
            self.wf(),
        ensures
            r is None <==> self.root_node() is Empty,
            r matches Some(found) ==> self.items().contains(found.1) || found.1.is_default(),
    {
        match self.root {
            OctreeNode::Empty => None,
            _ => Some(self.root.closest_point(query_point, self.objects.as_slice())),
        }
    }

    /// The objects whose closest point lies within `search_distance` of `query_point`.
    pub fn collect_nearby_objects(&self, query_point: &Vec3<T>, search_distance: T) -> (found: Vec<Q>)
        requires
            self.wf(),
        ensures
            forall|k: int| 0 <= k < found@.len() ==> self.items().contains(#[trigger] found@[k]),
    {
        let mut objects: Vec<Q> = Vec::new();
        let mut num_objects: usize = 0;
        self.root.collect_nearby_objects(query_point, search_distance, &mut objects, &mut num_objects, self.objects.as_slice());
        objects
    }
}

impl<Q: SignedQuery<T>, T: Float> Octree<Q, T> {
    /// Signed distance from `query_point` to the objects; not a number before the tree is
    /// built.
    pub fn signed_distance(&self, query_point: &Vec3<T>) -> T
        requires
            self.wf(),
    {
        match self.root {
            OctreeNode::Empty => nan(),
            _ => self.root.signed_distance(query_point, self.objects.as_slice()),
        }
    }
}

} // verus!

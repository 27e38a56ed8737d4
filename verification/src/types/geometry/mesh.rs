use vstd::prelude::*;
use num_traits::Float;
use rayon::iter::{IndexedParallelIterator, IntoParallelRefIterator, IntoParallelRefMutIterator, ParallelIterator};

use crate::utils::float::{from_usize, max, max_value, min, negate, one, quotient, zero};

use super::{BoundingBox, Line, Octree, Transform, Triangle, Vec3};

verus! {

/// A triangle mesh: vertices, faces as triples of vertex indices, and optional normals at
/// the vertices.
#[derive(Debug, Clone)]
#[verifier::reject_recursive_types(T)]
pub struct Mesh<T> {
    vertices: Vec<Vec3<T>>,
    faces: Vec<[usize; 3]>,
    normals: Option<Vec<Vec3<T>>>,
}

/// The faces at a vertex: for each face in order, its index once for each of its corners
/// at the vertex.
pub open spec fn incident_faces(faces: Seq<[usize; 3]>, vertex: usize) -> Seq<usize>
    decreases faces.len(),
{
    if faces.len() == 0 {
        Seq::empty()
    } else {
        let id = (faces.len() - 1) as usize;
        let face = faces.last();
        incident_faces(faces.drop_last(), vertex) + (if face[0] == vertex {
            seq![id]
        } else {
            Seq::empty()
        }) + (if face[1] == vertex {
            seq![id]
        } else {
            Seq::empty()
        }) + (if face[2] == vertex {
            seq![id]
        } else {
            Seq::empty()
        })
    }
}

/// One of the corners of a face is the vertex.
pub open spec fn has_corner(face: [usize; 3], vertex: usize) -> bool {
    face[0] == vertex || face[1] == vertex || face[2] == vertex
}

/// Every face listed at a vertex is a face of the list that has the vertex as a corner.
proof fn lemma_incident_faces<T>(faces: Seq<[usize; 3]>, vertex: usize)
    requires
        faces.len() <= usize::MAX,
    ensures
        forall|k: int|
            0 <= k < incident_faces(faces, vertex).len() ==> #[trigger] incident_faces(faces, vertex)[k] < faces.len()
                && has_corner(faces[incident_faces(faces, vertex)[k] as int], vertex),
    decreases faces.len(),
{
    if faces.len() > 0 {
        let rest = faces.drop_last();
        lemma_incident_faces::<T>(rest, vertex);
        let id = (faces.len() - 1) as usize;
        let face = faces.last();
        let a = incident_faces(rest, vertex);
        let b: Seq<usize> = if face[0] == vertex {
            seq![id]
        } else {
            Seq::empty()
        };
        let c: Seq<usize> = if face[1] == vertex {
            seq![id]
        } else {
            Seq::empty()
        };
        let d: Seq<usize> = if face[2] == vertex {
            seq![id]
        } else {
            Seq::empty()
        };
        let all = incident_faces(faces, vertex);
        assert(all == a + b + c + d);
        assert forall|k: int| 0 <= k < all.len() implies #[trigger] all[k] < faces.len() && has_corner(
            faces[all[k] as int],
            vertex,
        ) by {
            if k < a.len() {
                assert(all[k] == a[k]);
                assert(rest[a[k] as int] == faces[a[k] as int]);
            } else if k < a.len() + b.len() {
                assert(all[k] == b[k - a.len()]);
                assert(all[k] == id);
            } else if k < a.len() + b.len() + c.len() {
                assert(all[k] == c[k - a.len() - b.len()]);
                assert(all[k] == id);
            } else {
                assert(all[k] == d[k - a.len() - b.len() - c.len()]);
                assert(all[k] == id);
            }
        }
    }
}

impl<T> Mesh<T> {
    /// The vertices.
    pub closed spec fn vertex_list(self) -> Seq<Vec3<T>> {
        self.vertices@
    }

    /// The faces, each a triple of vertex indices.
    pub closed spec fn face_list(self) -> Seq<[usize; 3]> {
        self.faces@
    }

    /// The normals at the vertices, where the mesh has them.
    pub closed spec fn normal_list(self) -> Option<Seq<Vec3<T>>> {
        match self.normals {
            Some(n) => Some(n@),
            None => None,
        }
    }

    /// Every corner of every face is a vertex of the mesh, and has a normal where the mesh
    /// has normals.
    pub open spec fn faces_valid(self) -> bool {
        forall|f: int, c: int|
            0 <= f < self.face_list().len() && 0 <= c < 3 ==> {
                &&& #[trigger] self.face_list()[f][c] < self.vertex_list().len()
                &&& self.normal_list() matches Some(n) ==> self.face_list()[f][c] < n.len()
            }
    }

    /// A mesh without vertices, faces or normals.
    pub fn new() -> (mesh: Self)
        ensures
            mesh.vertex_list().len() == 0,
            mesh.face_list().len() == 0,
            mesh.normal_list() is None,
    {
        Mesh { vertices: Vec::new(), faces: Vec::new(), normals: None }
    }

    /// The vertices.
    pub fn vertices(&self) -> (v: &[Vec3<T>])
        ensures
            v@ == self.vertex_list(),
    {
        self.vertices.as_slice()
    }

    /// The faces.
    pub fn faces(&self) -> (f: &[[usize; 3]])
        ensures
            f@ == self.face_list(),
    {
        self.faces.as_slice()
    }

    /// The normals at the vertices, where the mesh has them.
    pub fn normals(&self) -> (n: Option<&[Vec3<T>]>)
        ensures
            match n {
                Some(s) => self.normal_list() == Some(s@),
                None => self.normal_list() is None,
            },
    {
        match &self.normals {
            Some(n) => Some(n.as_slice()),
            None => None,
        }
    }

    /// The number of vertices.
    pub fn num_vertices(&self) -> (n: usize)
        ensures
            n == self.vertex_list().len(),
    {
        self.vertices.len()
    }

    /// The number of faces.
    pub fn num_faces(&self) -> (n: usize)
        ensures
            n == self.face_list().len(),
    {
        self.faces.len()
    }
}

impl<T> Default for Mesh<T> {
    /// A mesh without vertices, faces or normals.
    fn default() -> (mesh: Self)
        ensures
            mesh.vertex_list().len() == 0,
            mesh.face_list().len() == 0,
            mesh.normal_list() is None,
    {
        Self::new()
    }
}

impl<T: Float> Mesh<T> {
    /// Append vertices to the vertex list. Faces and normals are kept.
    pub fn add_vertices(&mut self, vertices: &[Vec3<T>])
        ensures
            final(self).vertex_list() == old(self).vertex_list() + vertices@,
            final(self).face_list() == old(self).face_list(),
            final(self).normal_list() == old(self).normal_list(),
    {
        let mut index: usize = 0;
        while index < vertices.len()
            invariant
                index <= vertices@.len(),
                self.vertices@ == old(self).vertices@ + vertices@.subrange(0, index as int),
                self.faces == old(self).faces,
                self.normals == old(self).normals,
            decreases vertices@.len() - index,
        {
            self.vertices.push(vertices[index]);
            index = index + 1;
            assert(self.vertices@ =~= old(self).vertices@ + vertices@.subrange(0, index as int));
        }
        assert(vertices@.subrange(0, vertices@.len() as int) =~= vertices@);
    }

    /// Append faces to the face list. Vertices and normals are kept.
    pub fn add_faces(&mut self, faces: &[[usize; 3]])
        ensures
            final(self).face_list() == old(self).face_list() + faces@,
            final(self).vertex_list() == old(self).vertex_list(),
            final(self).normal_list() == old(self).normal_list(),
    {
        let mut index: usize = 0;
        while index < faces.len()
            invariant
                index <= faces@.len(),
                self.faces@ == old(self).faces@ + faces@.subrange(0, index as int),
                self.vertices == old(self).vertices,
                self.normals == old(self).normals,
            decreases faces@.len() - index,
        {
            self.faces.push(faces[index]);
            index = index + 1;
            assert(self.faces@ =~= old(self).faces@ + faces@.subrange(0, index as int));
        }
        assert(faces@.subrange(0, faces@.len() as int) =~= faces@);
    }

    /// Set a normal for each vertex. Refused, with nothing changed, where the number of
    /// normals differs from the number of vertices.
    pub(crate) fn set_normals(&mut self, normals: &[Vec3<T>]) -> (set: bool)
        ensures
            set == (normals@.len() == old(self).vertex_list().len()),
            set ==> final(self).normal_list() == Some(normals@),
            !set ==> final(self).normal_list() == old(self).normal_list(),
            final(self).vertex_list() == old(self).vertex_list(),
            final(self).face_list() == old(self).face_list(),
    {
        if normals.len() != self.vertices.len() {
            return false;
        }
        let mut copy: Vec<Vec3<T>> = Vec::new();
        let mut index: usize = 0;
        while index < normals.len()
            invariant
                index <= normals@.len(),
                copy@ == normals@.subrange(0, index as int),
            decreases normals@.len() - index,
        {
            copy.push(normals[index]);
            index = index + 1;
            assert(copy@ =~= normals@.subrange(0, index as int));
        }
        assert(copy@ =~= normals@);
        self.normals = Some(copy);
        true
    }

    /// The faces as triangles, each with the normals of its corners where the mesh has
    /// normals.
    pub fn as_triangles(&self) -> (triangles: Vec<Triangle<T>>)
        requires
            self.faces_valid(),
        ensures
            triangles@.len() == self.face_list().len(),
            forall|k: int|
                0 <= k < triangles@.len() ==> {
                    let face = self.face_list()[k];
                    &&& (#[trigger] triangles@[k]).p[0] == self.vertex_list()[face[0] as int]
                    &&& triangles@[k].p[1] == self.vertex_list()[face[1] as int]
                    &&& triangles@[k].p[2] == self.vertex_list()[face[2] as int]
                    &&& match self.normal_list() {
                        Some(n) => triangles@[k].n matches Some(m) && m[0] == n[face[0] as int] && m[1] == n[face[1] as int]
                            && m[2] == n[face[2] as int],
                        None => triangles@[k].n is None,
                    }
                },
    {
        let mut triangles: Vec<Triangle<T>> = Vec::new();
        let mut k: usize = 0;
        while k < self.faces.len()
            invariant
                self.faces_valid(),
                k <= self.faces@.len(),
                triangles@.len() == k,
                forall|i: int|
                    0 <= i < k ==> {
                        let face = self.face_list()[i];
                        &&& (#[trigger] triangles@[i]).p[0] == self.vertex_list()[face[0] as int]
                        &&& triangles@[i].p[1] == self.vertex_list()[face[1] as int]
                        &&& triangles@[i].p[2] == self.vertex_list()[face[2] as int]
                        &&& match self.normal_list() {
                            Some(n) => triangles@[i].n matches Some(m) && m[0] == n[face[0] as int] && m[1]
                                == n[face[1] as int] && m[2] == n[face[2] as int],
                            None => triangles@[i].n is None,
                        }
                    },
            decreases self.faces@.len() - k,
        {
            let face = self.faces[k];
            assert(self.face_list()[k as int] == face);
            assert(face[0] < self.vertices@.len() && face[1] < self.vertices@.len() && face[2] < self.vertices@.len()) by {
                assert(self.face_list()[k as int][0] < self.vertex_list().len());
                assert(self.face_list()[k as int][1] < self.vertex_list().len());
                assert(self.face_list()[k as int][2] < self.vertex_list().len());
            }
            let face_normals = match &self.normals {
                Some(n) => {
                    assert(face[0] < n@.len() && face[1] < n@.len() && face[2] < n@.len()) by {
                        assert(self.face_list()[k as int][0] < self.vertex_list().len());
                        assert(self.face_list()[k as int][1] < self.vertex_list().len());
                        assert(self.face_list()[k as int][2] < self.vertex_list().len());
                    }
                    Some([n[face[0]], n[face[1]], n[face[2]]])
                },
                None => None,
            };
            triangles.push(
                Triangle::with_normals(self.vertices[face[0]], self.vertices[face[1]], self.vertices[face[2]], face_normals),
            );
            k = k + 1;
        }
        triangles
    }

    /// For each vertex, the faces at it (see [`incident_faces`]).
    pub(crate) fn compute_vertex_faces(&self) -> (vertex_faces: Vec<Vec<usize>>)
        requires
            self.faces_valid(),
        ensures
            vertex_faces@.len() == self.vertex_list().len(),
            forall|v: int|
                0 <= v < vertex_faces@.len() ==> (#[trigger] vertex_faces@[v])@ == incident_faces(
                    self.face_list(),
                    v as usize,
                ),
    {
        let n = self.vertices.len();
        let mut vertex_faces: Vec<Vec<usize>> = Vec::new();
        let mut v: usize = 0;
        while v < n
            invariant
                v <= n,
                vertex_faces@.len() == v,
                forall|i: int| 0 <= i < v ==> (#[trigger] vertex_faces@[i])@ == Seq::<usize>::empty(),
            decreases n - v,
        {
            vertex_faces.push(Vec::new());
            v = v + 1;
        }
        let ghost faces = self.faces@;
        let mut id: usize = 0;
        proof {
            assert(faces.take(0) =~= Seq::<[usize; 3]>::empty());
        }
        while id < self.faces.len()
            invariant
                self.faces_valid(),
                faces == self.faces@,
                n == self.vertices@.len(),
                id <= faces.len(),
                vertex_faces@.len() == n,
                forall|i: int|
                    0 <= i < n ==> (#[trigger] vertex_faces@[i])@ == incident_faces(faces.take(id as int), i as usize),
            decreases faces.len() - id,
        {
            let face = self.faces[id];
            assert(self.face_list()[id as int] == face);
            assert(face[0] < n && face[1] < n && face[2] < n) by {
                assert(self.face_list()[id as int][0] < self.vertex_list().len());
                assert(self.face_list()[id as int][1] < self.vertex_list().len());
                assert(self.face_list()[id as int][2] < self.vertex_list().len());
            }
            let ghost before = vertex_faces@.map_values(|list: Vec<usize>| list@);
            vertex_faces[face[0]].push(id);
            let ghost first = vertex_faces@.map_values(|list: Vec<usize>| list@);
            vertex_faces[face[1]].push(id);
            let ghost second = vertex_faces@.map_values(|list: Vec<usize>| list@);
            vertex_faces[face[2]].push(id);
            proof {
                let prefix = faces.take(id + 1);
                assert(prefix.drop_last() =~= faces.take(id as int));
                assert(prefix.last() == face);
                assert forall|i: int| 0 <= i < n implies (#[trigger] vertex_faces@[i])@ == incident_faces(
                    prefix,
                    i as usize,
                ) by {
                    assert(before[i] == incident_faces(faces.take(id as int), i as usize));
                    let with_first = if face[0] == i {
                        before[i].push(id)
                    } else {
                        before[i]
                    };
                    assert(first[i] == with_first);
                    let with_second = if face[1] == i {
                        first[i].push(id)
                    } else {
                        first[i]
                    };
                    assert(second[i] == with_second);
                    assert(incident_faces(prefix, i as usize) =~= before[i] + (if face[0] == i {
                        seq![id]
                    } else {
                        Seq::empty()
                    }) + (if face[1] == i {
                        seq![id]
                    } else {
                        Seq::empty()
                    }) + (if face[2] == i {
                        seq![id]
                    } else {
                        Seq::empty()
                    }));
                    assert(vertex_faces@[i]@ =~= incident_faces(prefix, i as usize));
                }
            }
            id = id + 1;
        }
        proof {
            assert(faces.take(faces.len() as int) =~= faces);
        }
        vertex_faces
    }
}

/// hashbrown's set of the edges of a mesh, as pairs of vertex indices.
#[verifier::external_body]
pub struct EdgeSet {
    set: hashbrown::HashSet<(usize, usize)>,
}

/// The edges in an edge set.
pub uninterp spec fn edge_entries(edges: EdgeSet) -> Set<(usize, usize)>;

/// `hashbrown::HashSet::with_capacity`: a set without edges, with room for `capacity`.
#[verifier::external_body]
fn edge_set_with_capacity(capacity: usize) -> (edges: EdgeSet)
    ensures
        edge_entries(edges).is_empty(),
{
    EdgeSet { set: hashbrown::HashSet::with_capacity(capacity) }
}

/// `hashbrown::HashSet::insert`: the edge is in the set afterwards, the others are kept;
/// `true` where it was not there before.
#[verifier::external_body]
fn edge_set_insert(edges: &mut EdgeSet, edge: (usize, usize)) -> (added: bool)
    ensures
        edge_entries(*final(edges)) == edge_entries(*old(edges)).insert(edge),
        added == !edge_entries(*old(edges)).contains(edge),
{
    edges.set.insert(edge)
}

/// `hashbrown::HashSet::iter`, collected: each edge of the set once, in the set's own
/// order, which is left open.
#[verifier::external_body]
fn edge_set_items(edges: &EdgeSet) -> (items: Vec<(usize, usize)>)
    ensures
        items@.no_duplicates(),
        items@.to_set() == edge_entries(*edges),
{
    edges.set.iter().copied().collect()
}

/// The edge between two vertices, as their indices with the smaller first.
pub open spec fn edge_key(a: usize, b: usize) -> (usize, usize) {
    if a <= b {
        (a, b)
    } else {
        (b, a)
    }
}

/// `e` is the [`edge_key`] of an edge of the face: between two of its corners.
pub open spec fn face_has_edge(face: [usize; 3], e: (usize, usize)) -> bool {
    e == edge_key(face[0], face[1]) || e == edge_key(face[1], face[2]) || e == edge_key(face[2], face[0])
}

/// The undirected edges of the faces, each as its [`edge_key`]: an edge shared by faces,
/// in either direction, is one edge.
pub open spec fn face_edges(faces: Seq<[usize; 3]>) -> Set<(usize, usize)> {
    Set::new(|e: (usize, usize)| exists|f: int| 0 <= f < faces.len() && face_has_edge(#[trigger] faces[f], e))
}

/// The [`edge_key`] of the edge between two vertices.
fn ordered_edge(a: usize, b: usize) -> (e: (usize, usize))
    ensures
        e == edge_key(a, b),
{
    if a <= b {
        (a, b)
    } else {
        (b, a)
    }
}

/// rayon's `par_iter().map(..).collect()` over the faces: one normal per face, in the
/// order of the faces, each as [`Mesh::face_normal_of`] computes it. Only the length is
/// stated: the values come from floating point.
#[verifier::external_body]
fn face_normals_par<T: Float + Send + Sync>(mesh: &Mesh<T>) -> (normals: Vec<Vec3<T>>)
    requires
        mesh.faces_valid(),
    ensures
        normals@.len() == mesh.face_list().len(),
{
    mesh.faces.par_iter().map(|f| mesh.face_normal_of(*f)).collect()
}

/// rayon's `par_iter_mut().enumerate().for_each(..)` over the normals: each is set, in
/// parallel, to [`Mesh::vertex_normal`] of the vertex at the same position. Only the
/// length is stated: the values come from floating point.
#[verifier::external_body]
fn vertex_normals_par<T: Float + Send + Sync>(
    mesh: &Mesh<T>,
    face_normals: &Vec<Vec3<T>>,
    vertex_faces: &Vec<Vec<usize>>,
    normals: &mut Vec<Vec3<T>>,
)
    requires
        mesh.faces_valid(),
        face_normals@.len() == mesh.face_list().len(),
        vertex_faces@.len() == mesh.vertex_list().len(),
        forall|v: int| 0 <= v < vertex_faces@.len() ==> (#[trigger] vertex_faces@[v])@ == incident_faces(mesh.face_list(), v as usize),
        old(normals)@.len() == mesh.vertex_list().len(),
    ensures
        final(normals)@.len() == old(normals)@.len(),
{
    normals.par_iter_mut().enumerate().for_each(|(id, n)| *n = mesh.vertex_normal(face_normals, vertex_faces, id));
}

/// rayon's `par_iter_mut().for_each(..)` over the vertices: each is transformed, in
/// parallel. Only the length is stated: the values come from floating point.
#[verifier::external_body]
fn transform_vertices_par<T: Float + Send + Sync>(vertices: &mut Vec<Vec3<T>>, transform: Transform<T>)
    ensures
        final(vertices)@.len() == old(vertices)@.len(),
{
    vertices.par_iter_mut().for_each(|pt| *pt = pt.transform(transform));
}

impl<T: Float> Mesh<T> {
    /// The unit normal of the plane of a face.
    pub(crate) fn face_normal_of(&self, face: [usize; 3]) -> Vec3<T>
        requires
            face[0] < self.vertex_list().len(),
            face[1] < self.vertex_list().len(),
            face[2] < self.vertex_list().len(),
    {
        let v1 = self.vertices[face[1]].sub_vec(self.vertices[face[0]]);
        let v2 = self.vertices[face[2]].sub_vec(self.vertices[face[0]]);
        v1.cross(&v2).normalize()
    }

    /// The unit normal of each face, in the order of the faces.
    pub(crate) fn compute_face_normals(&self) -> (normals: Vec<Vec3<T>>)
        requires
            self.faces_valid(),
        ensures
            normals@.len() == self.face_list().len(),
    {
        let mut normals: Vec<Vec3<T>> = Vec::new();
        let mut k: usize = 0;
        while k < self.faces.len()
            invariant
                self.faces_valid(),
                k <= self.faces@.len(),
                normals@.len() == k,
            decreases self.faces@.len() - k,
        {
            let face = self.faces[k];
            assert(self.face_list()[k as int] == face);
            assert(face[0] < self.vertices@.len() && face[1] < self.vertices@.len() && face[2] < self.vertices@.len()) by {
                assert(self.face_list()[k as int][0] < self.vertex_list().len());
                assert(self.face_list()[k as int][1] < self.vertex_list().len());
                assert(self.face_list()[k as int][2] < self.vertex_list().len());
            }
            normals.push(self.face_normal_of(face));
            k = k + 1;
        }
        normals
    }

    /// The angle of a face at one of its corners, zero where an edge there has no
    /// length.
    fn face_angle_at_vertex(&self, vertex_index: usize, face_index: usize) -> T
        requires
            self.faces_valid(),
            face_index < self.face_list().len(),
            has_corner(self.face_list()[face_index as int], vertex_index),
    {
        let face = self.faces[face_index];
        assert(self.face_list()[face_index as int] == face);
        assert(face[0] < self.vertices@.len() && face[1] < self.vertices@.len() && face[2] < self.vertices@.len()) by {
            assert(self.face_list()[face_index as int][0] < self.vertex_list().len());
            assert(self.face_list()[face_index as int][1] < self.vertex_list().len());
            assert(self.face_list()[face_index as int][2] < self.vertex_list().len());
        }
        let (a, b) = if face[0] == vertex_index {
            (face[1], face[2])
        } else if face[1] == vertex_index {
            (face[0], face[2])
        } else {
            (face[0], face[1])
        };
        let vertex = self.vertices[vertex_index];
        let v1 = self.vertices[a].sub_vec(vertex);
        let v2 = self.vertices[b].sub_vec(vertex);
        match v1.angle(&v2) {
            Some(angle) => angle,
            None => zero(),
        }
    }

    /// The normal at a vertex: the unit sum of the normals of the faces at it, each
    /// weighted by the face's angle there.
    pub(crate) fn vertex_normal(&self, face_normals: &Vec<Vec3<T>>, vertex_faces: &Vec<Vec<usize>>, id: usize) -> Vec3<T>
        requires
            self.faces_valid(),
            face_normals@.len() == self.face_list().len(),
            vertex_faces@.len() == self.vertex_list().len(),
            forall|v: int| 0 <= v < vertex_faces@.len() ==> (#[trigger] vertex_faces@[v])@ == incident_faces(self.face_list(), v as usize),
            id < self.vertex_list().len(),
    {
        let faces = &vertex_faces[id];
        let face_count = self.faces.len();
        proof {
            lemma_incident_faces::<T>(self.face_list(), id);
        }
        let mut n = Vec3::origin();
        let mut k: usize = 0;
        while k < faces.len()
            invariant
                self.faces_valid(),
                face_normals@.len() == self.face_list().len(),
                faces@ == incident_faces(self.face_list(), id),
                forall|j: int|
                    0 <= j < incident_faces(self.face_list(), id).len() ==> #[trigger] incident_faces(self.face_list(), id)[j]
                        < self.face_list().len() && has_corner(
                        self.face_list()[incident_faces(self.face_list(), id)[j] as int],
                        id,
                    ),
                k <= faces@.len(),
            decreases faces@.len() - k,
        {
            let f = faces[k];
            assert(f == incident_faces(self.face_list(), id)[k as int]);
            n = n.add_vec(face_normals[f].scale(self.face_angle_at_vertex(id, f)));
            k = k + 1;
        }
        n.normalize()
    }

    /// Set the normal at each vertex to the angle weighted average of the normals of the
    /// faces at it (see [`Mesh::vertex_normal`]).
    pub fn compute_vertex_normals(&mut self)
        requires
            old(self).faces_valid(),
        ensures
            final(self).vertex_list() == old(self).vertex_list(),
            final(self).face_list() == old(self).face_list(),
            final(self).normal_list() matches Some(n) && n.len() == final(self).vertex_list().len(),
            final(self).faces_valid(),
    {
        let face_normals = self.compute_face_normals();
        let vertex_faces = self.compute_vertex_faces();
        let mut normals: Vec<Vec3<T>> = Vec::new();
        let mut id: usize = 0;
        while id < self.vertices.len()
            invariant
                self.faces_valid(),
                face_normals@.len() == self.face_list().len(),
                vertex_faces@.len() == self.vertex_list().len(),
                forall|v: int| 0 <= v < vertex_faces@.len() ==> (#[trigger] vertex_faces@[v])@ == incident_faces(self.face_list(), v as usize),
                id <= self.vertices@.len(),
                normals@.len() == id,
            decreases self.vertices@.len() - id,
        {
            normals.push(self.vertex_normal(&face_normals, &vertex_faces, id));
            id = id + 1;
        }
        self.normals = Some(normals);
    }

    /// The average of the vertices.
    pub fn centroid(&self) -> Vec3<T> {
        let mut centroid = Vec3::origin();
        let mut k: usize = 0;
        while k < self.vertices.len()
            invariant
                k <= self.vertices@.len(),
            decreases self.vertices@.len() - k,
        {
            centroid = centroid.add_vec(self.vertices[k]);
            k = k + 1;
        }
        centroid.scale(quotient(one(), from_usize(self.vertices.len())))
    }

    /// The box spanned by the vertices.
    pub fn bounds(&self) -> BoundingBox<T> {
        let big = max_value();
        let mut lo = Vec3::new(big, big, big);
        let mut hi = Vec3::new(negate(big), negate(big), negate(big));
        let mut k: usize = 0;
        while k < self.vertices.len()
            invariant
                k <= self.vertices@.len(),
            decreases self.vertices@.len() - k,
        {
            let v = self.vertices[k];
            lo = Vec3::new(min(lo.x, v.x), min(lo.y, v.y), min(lo.z, v.z));
            hi = Vec3::new(max(hi.x, v.x), max(hi.y, v.y), max(hi.z, v.z));
            k = k + 1;
        }
        BoundingBox::new(lo, hi)
    }

    /// The unique edges of the faces (see [`face_edges`]), each once, as a line from its
    /// vertex of smaller index to the other. Their order is the order of a hash set, which
    /// is left open.
    pub fn edges(&self) -> (lines: Vec<Line<T>>)
        requires
            self.faces_valid(),
        ensures
            exists|items: Seq<(usize, usize)>|
                #[trigger] items.to_set() == face_edges(self.face_list()) && items.no_duplicates() && lines@.len()
                    == items.len() && forall|k: int|
                    0 <= k < items.len() ==> lines@[k].start == self.vertex_list()[items[k].0 as int]
                        && lines@[k].end == self.vertex_list()[items[k].1 as int],
    {
        let ghost faces = self.faces@;
        let mut set = edge_set_with_capacity(self.faces.len());
        let mut id: usize = 0;
        proof {
            assert(edge_entries(set) =~= face_edges(faces.take(0)));
        }
        while id < self.faces.len()
            invariant
                faces == self.faces@,
                id <= faces.len(),
                edge_entries(set) == face_edges(faces.take(id as int)),
            decreases faces.len() - id,
        {
            let f = self.faces[id];
            edge_set_insert(&mut set, ordered_edge(f[0], f[1]));
            edge_set_insert(&mut set, ordered_edge(f[1], f[2]));
            edge_set_insert(&mut set, ordered_edge(f[2], f[0]));
            proof {
                let prefix = faces.take(id + 1);
                let before = faces.take(id as int);
                assert(prefix[id as int] == f);
                assert forall|e: (usize, usize)| #[trigger] face_edges(prefix).contains(e) implies edge_entries(set).contains(e) by {
                    let w = choose|w: int| 0 <= w < prefix.len() && face_has_edge(#[trigger] prefix[w], e);
                    if w < id {
                        assert(before[w] == prefix[w]);
                        assert(face_has_edge(before[w], e));
                        assert(face_edges(before).contains(e));
                    }
                }
                assert forall|e: (usize, usize)| #[trigger] edge_entries(set).contains(e) implies face_edges(prefix).contains(e) by {
                    if face_edges(before).contains(e) {
                        let w = choose|w: int| 0 <= w < before.len() && face_has_edge(#[trigger] before[w], e);
                        assert(before[w] == prefix[w]);
                    } else {
                        assert(prefix[id as int] == f);
                        assert(face_has_edge(prefix[id as int], e));
                    }
                }
                assert(edge_entries(set) =~= face_edges(prefix));
            }
            id = id + 1;
        }
        proof {
            assert(faces.take(faces.len() as int) =~= faces);
        }
        let items = edge_set_items(&set);
        let mut lines: Vec<Line<T>> = Vec::new();
        let mut k: usize = 0;
        while k < items.len()
            invariant
                self.faces_valid(),
                faces == self.faces@,
                items@.to_set() == face_edges(faces),
                k <= items@.len(),
                lines@.len() == k,
                forall|j: int|
                    0 <= j < k ==> lines@[j].start == self.vertex_list()[items@[j].0 as int] && lines@[j].end
                        == self.vertex_list()[items@[j].1 as int],
            decreases items@.len() - k,
        {
            let (a, b) = items[k];
            proof {
                assert(items@.to_set().contains(items@[k as int]));
                let e = items@[k as int];
                assert(face_edges(faces).contains(e));
                let w = choose|w: int| 0 <= w < faces.len() && face_has_edge(#[trigger] faces[w], e);
                assert(self.face_list()[w][0] < self.vertex_list().len());
                assert(self.face_list()[w][1] < self.vertex_list().len());
                assert(self.face_list()[w][2] < self.vertex_list().len());
            }
            lines.push(Line::new(self.vertices[a], self.vertices[b]));
            k = k + 1;
        }
        lines
    }

    /// The mesh in another scalar type, normals recomputed where the mesh has them.
    /// `None` where a vertex has no counterpart in that type.
    pub fn convert<Q: Float>(&self) -> (converted: Option<Mesh<Q>>)
        requires
            self.faces_valid(),
        ensures
            converted matches Some(m) ==> {
                &&& m.face_list() == self.face_list()
                &&& m.vertex_list().len() == self.vertex_list().len()
                &&& (m.normal_list() is Some <==> self.normal_list() is Some)
                &&& m.faces_valid()
            },
            self.vertex_list().len() == 0 ==> converted is Some,
    {
        let mut vertices: Vec<Vec3<Q>> = Vec::new();
        let mut k: usize = 0;
        while k < self.vertices.len()
            invariant
                k <= self.vertices@.len(),
                vertices@.len() == k,
            decreases self.vertices@.len() - k,
        {
            match self.vertices[k].convert::<Q>() {
                Some(v) => vertices.push(v),
                None => {
                    return None;
                },
            }
            k = k + 1;
        }
        let mut m = Mesh::<Q>::new();
        m.add_vertices(vertices.as_slice());
        m.add_faces(self.faces.as_slice());
        proof {
            assert(m.face_list() =~= self.face_list());
            assert forall|f: int, c: int| 0 <= f < m.face_list().len() && 0 <= c < 3 implies #[trigger] m.face_list()[f][c]
                < m.vertex_list().len() by {
                assert(self.face_list()[f][c] < self.vertex_list().len());
            }
        }
        if self.normals.is_some() {
            m.compute_vertex_normals();
        }
        Some(m)
    }

    /// An octree over the triangles of the mesh, for closest point and signed distance
    /// queries.
    pub fn compute_octree(&self, max_depth: usize, max_triangles: usize) -> (tree: Octree<Triangle<T>, T>)
        requires
            self.faces_valid(),
            self.face_list().len() > 0,
        ensures
            tree.wf(),
            tree.items().len() == self.face_list().len(),
            tree.limits() == (max_depth, max_triangles),
            !(tree.root_node() is Empty),
    {
        let triangles = self.as_triangles();
        Octree::new().with_max_depth(max_depth).with_max_leaf_size(max_triangles).with_objects(triangles.as_slice()).build()
    }
}

impl<T: Float + Send + Sync> Mesh<T> {
    /// The unit normal of each face, in the order of the faces, computed in parallel.
    pub(crate) fn compute_face_normals_par(&self) -> (normals: Vec<Vec3<T>>)
        requires
            self.faces_valid(),
        ensures
            normals@.len() == self.face_list().len(),
    {
        face_normals_par(self)
    }

    /// As [`Mesh::compute_vertex_normals`], the vertices computed in parallel.
    pub fn compute_vertex_normals_par(&mut self)
        requires
            old(self).faces_valid(),
        ensures
            final(self).vertex_list() == old(self).vertex_list(),
            final(self).face_list() == old(self).face_list(),
            final(self).normal_list() matches Some(n) && n.len() == final(self).vertex_list().len(),
            final(self).faces_valid(),
    {
        let face_normals = self.compute_face_normals_par();
        let vertex_faces = self.compute_vertex_faces();
        let mut normals: Vec<Vec3<T>> = Vec::new();
        let mut id: usize = 0;
        while id < self.vertices.len()
            invariant
                id <= self.vertices@.len(),
                normals@.len() == id,
            decreases self.vertices@.len() - id,
        {
            normals.push(Vec3::origin());
            id = id + 1;
        }
        vertex_normals_par(self, &face_normals, &vertex_faces, &mut normals);
        self.normals = Some(normals);
    }

    /// Transform the vertices in place, in parallel. Faces and normals are kept.
    pub fn transform_self_par(&mut self, transform: Transform<T>)
        ensures
            final(self).vertex_list().len() == old(self).vertex_list().len(),
            final(self).face_list() == old(self).face_list(),
            final(self).normal_list() == old(self).normal_list(),
    {
        transform_vertices_par(&mut self.vertices, transform);
    }
}

} // verus!

use vstd::prelude::*;
use num_traits::Float;

use crate::utils::float::{
    abs, difference, epsilon, from_usize, ge, gt, le, lt, max, min, negate, one, product, quotient, sqrt, sum, zero,
};

use super::traits::{Bounded, SignedDistance, SignedQuery, SpatialQuery};
use super::{BoundingBox, Vec3};

verus! {

/// A feature of a triangle, used to classify closest point look-ups.
#[derive(Debug, Clone, Copy, PartialEq, Eq)]
pub enum TriangleFeature {
    /// A vertex of the triangle, by index.
    VERTEX(usize),
    /// An edge of the triangle, by the indices of its end points.
    EDGE([usize; 2]),
    /// The face of the triangle, within its edges.
    FACE,
}

/// A triangle in 3d space, with optional normals at its vertices.
#[derive(Debug, Clone, Copy)]
pub struct Triangle<T> {
    /// Positions of the three vertices.
    pub p: [Vec3<T>; 3],
    /// Optional normals at each vertex.
    pub n: Option<[Vec3<T>; 3]>,
}

impl<T> Triangle<T> {
    /// A triangle from three vertices, without normals.
    pub fn new(p1: Vec3<T>, p2: Vec3<T>, p3: Vec3<T>) -> (t: Self)
        ensures
            t.p[0] == p1 && t.p[1] == p2 && t.p[2] == p3,
            t.n is None,
    {
        Self { p: [p1, p2, p3], n: None }
    }

    /// A triangle from three vertices and, if given, a normal at each vertex.
    pub fn with_normals(p1: Vec3<T>, p2: Vec3<T>, p3: Vec3<T>, n: Option<[Vec3<T>; 3]>) -> (t: Self)
        ensures
            t.p[0] == p1 && t.p[1] == p2 && t.p[2] == p3,
            t.n == n,
    {
        Self { p: [p1, p2, p3], n }
    }
}

impl<T: Float> Triangle<T> {
    /// A triangle with every vertex at the origin.
    pub fn zero() -> (t: Self)
        ensures
            t.p[0] == t.p[1] && t.p[1] == t.p[2],
            t.p[0].x == t.p[0].y && t.p[0].y == t.p[0].z,
            t.n is None,
    {
        let origin = Vec3::origin();
        Self { p: [origin, origin, origin], n: None }
    }

    /// The first vertex.
    pub fn p1(&self) -> (v: Vec3<T>)
        ensures
            v == self.p[0],
    {
        self.p[0]
    }

    /// The second vertex.
    pub fn p2(&self) -> (v: Vec3<T>)
        ensures
            v == self.p[1],
    {
        self.p[1]
    }

    /// The third vertex.
    pub fn p3(&self) -> (v: Vec3<T>)
        ensures
            v == self.p[2],
    {
        self.p[2]
    }

    /// The area of the triangle, by Heron's formula.
    pub fn compute_area(&self) -> T {
        let a = self.p1().distance_to_vec3(&self.p2());
        let b = self.p2().distance_to_vec3(&self.p3());
        let c = self.p3().distance_to_vec3(&self.p1());
        let s = quotient(sum(sum(a, b), c), from_usize(2));
        sqrt(product(product(product(s, difference(s, a)), difference(s, b)), difference(s, c)))
    }

    /// The unit normal of the plane of the triangle.
    pub fn face_normal(&self) -> Vec3<T> {
        let v1 = self.p2().sub_vec(self.p1());
        let v2 = self.p3().sub_vec(self.p1());
        v1.cross(&v2).normalize()
    }

    /// The vertex normals where the triangle has them, else the face normal at each
    /// vertex.
    pub fn vertex_normals(&self) -> (normals: [Vec3<T>; 3])
        ensures
            match self.n {
                Some(n) => normals == n,
                None => normals[0] == normals[1] && normals[1] == normals[2],
            },
    {
        match self.n {
            Some(normals) => normals,
            None => {
                let normal = self.face_normal();
                [normal, normal, normal]
            },
        }
    }

    /// The closest point on the triangle to a query point, and the feature it lies on: a
    /// vertex (the point is that vertex), an edge or the face.
    pub fn closest_point(&self, query_point: &Vec3<T>) -> (r: (TriangleFeature, Vec3<T>))
        ensures
            match r.0 {
                TriangleFeature::VERTEX(i) => i < 3 && r.1 == self.p[i as int],
                TriangleFeature::EDGE(e) => (e[0] == 0 && e[1] == 1) || (e[0] == 0 && e[1] == 2) || (e[0] == 1 && e[1]
                    == 2),
                TriangleFeature::FACE => true,
            },
    {
        let eps: T = quotient(one(), from_usize(10000000));
        let ab = self.p[1].sub_vec(self.p[0]);
        let ac = self.p[2].sub_vec(self.p[0]);
        let ap = query_point.sub_vec(self.p[0]);

        let d1 = ab.dot(&ap);
        let d2 = ac.dot(&ap);
        if le(d1, eps) && le(d2, eps) {
            return (TriangleFeature::VERTEX(0), self.p[0]);
        }
        let bp = query_point.sub_vec(self.p[1]);
        let d3 = ab.dot(&bp);
        let d4 = ac.dot(&bp);
        if ge(d3, negate(eps)) && le(d4, sum(d3, eps)) {
            return (TriangleFeature::VERTEX(1), self.p[1]);
        }
        let vc = difference(product(d1, d4), product(d3, d2));
        if le(vc, eps) && ge(d1, negate(eps)) && le(d3, eps) {
            let v = quotient(d1, difference(d1, d3));
            return (TriangleFeature::EDGE([0, 1]), self.p[0].add_vec(ab.scale(v)));
        }
        let cp = query_point.sub_vec(self.p[2]);
        let d5 = ab.dot(&cp);
        let d6 = ac.dot(&cp);
        if ge(d6, negate(eps)) && le(d5, sum(d6, eps)) {
            return (TriangleFeature::VERTEX(2), self.p[2]);
        }
        let vb = difference(product(d5, d2), product(d1, d6));
        if le(vb, eps) && ge(d2, negate(eps)) && le(d6, eps) {
            let w = quotient(d2, difference(d2, d6));
            return (TriangleFeature::EDGE([0, 2]), self.p[0].add_vec(ac.scale(w)));
        }
        let va = difference(product(d3, d6), product(d5, d4));
        let e43 = difference(d4, d3);
        let e56 = difference(d5, d6);
        if le(va, eps) && ge(e43, negate(eps)) && ge(e56, negate(eps)) {
            let w = quotient(e43, sum(e43, e56));
            return (TriangleFeature::EDGE([1, 2]), self.p[1].add_vec(self.p[2].sub_vec(self.p[1]).scale(w)));
        }
        let denom = quotient(one(), sum(sum(va, vb), vc));
        let v = product(vb, denom);
        let w = product(vc, denom);
        (TriangleFeature::FACE, self.p[0].add_vec(ab.scale(v)).add_vec(ac.scale(w)))
    }

    /// The barycentric coordinates of a point of the plane of the triangle, `(0, 0, 0)`
    /// for a degenerate triangle.
    pub fn barycentric_coord(&self, query_point: &Vec3<T>) -> Vec3<T> {
        let v0 = self.p2().sub_vec(self.p1());
        let v1 = self.p3().sub_vec(self.p1());
        let v2 = query_point.sub_vec(self.p1());

        let d00 = v0.dot(&v0);
        let d01 = v0.dot(&v1);
        let d11 = v1.dot(&v1);
        let d20 = v2.dot(&v0);
        let d21 = v2.dot(&v1);
        let denom = difference(product(d00, d11), product(d01, d01));
        if lt(abs(denom), epsilon()) {
            return Vec3::new(zero(), zero(), zero());
        }
        let v = quotient(difference(product(d11, d20), product(d01, d21)), denom);
        let w = quotient(difference(product(d00, d21), product(d01, d20)), denom);
        let u = difference(difference(one(), v), w);
        Vec3::new(u, v, w)
    }

    /// Spherical interpolation of the vertex normals at a barycentric coordinate. The
    /// weights that are not zero take part; where none is (a degenerate triangle), the
    /// first normal is given.
    fn interpolate_normals(normals: [Vec3<T>; 3], barycentric_coords: Vec3<T>) -> Vec3<T> {
        let w0 = barycentric_coords.x;
        let w1 = barycentric_coords.y;
        let w2 = barycentric_coords.z;
        let a = gt(abs(w0), epsilon());
        let b = gt(abs(w1), epsilon());
        let c = gt(abs(w2), epsilon());
        if a && b && c {
            let first = Vec3::slerp(normals[0], normals[1], quotient(w1, sum(w0, w1)));
            Vec3::slerp(first, normals[2], w2).normalize()
        } else if a && b {
            Vec3::slerp(normals[0], normals[1], quotient(w1, sum(w0, w1))).normalize()
        } else if b && c {
            Vec3::slerp(normals[1], normals[2], quotient(w2, sum(w1, w2))).normalize()
        } else if a && c {
            Vec3::slerp(normals[0], normals[2], quotient(w2, sum(w0, w2))).normalize()
        } else if b {
            normals[1]
        } else if c {
            normals[2]
        } else {
            normals[0]
        }
    }
}

impl<T: Copy> SpatialQuery<T> for Triangle<T> {
    /// A triangle without normals whose three vertices are one point with equal
    /// coordinates, as [`Triangle::zero`] gives.
    open spec fn is_default(&self) -> bool {
        &&& self.p[0] == self.p[1] && self.p[1] == self.p[2]
        &&& self.p[0].x == self.p[0].y && self.p[0].y == self.p[0].z
        &&& self.n is None
    }

    fn default() -> (d: Self) where T: Float {
        Triangle::zero()
    }

    fn closest_point(&self, query_point: &Vec3<T>) -> Vec3<T> where T: Float {
        Triangle::closest_point(self, query_point).1
    }
}

impl<T: Copy> SignedQuery<T> for Triangle<T> {
    /// The closest point and the normal there, interpolated from the vertex normals.
    fn closest_point_with_normal(&self, query_point: &Vec3<T>) -> (Vec3<T>, Vec3<T>) where T: Float {
        let (_, closest_point) = Triangle::closest_point(self, query_point);
        let barycentric_coord = self.barycentric_coord(&closest_point);
        let normals = self.vertex_normals();
        (closest_point, Triangle::interpolate_normals(normals, barycentric_coord))
    }
}

impl<T> SignedDistance<T> for Triangle<T> {
    /// The distance from the query point to itself, negated where the point lies behind
    /// the normal at the closest point.
    fn signed_distance(&self, x: T, y: T, z: T) -> T where T: Float {
        let query_point = Vec3::new(x, y, z);
        let (closest_point, normal) = self.closest_point_with_normal(&query_point);
        let qp = query_point.sub_vec(closest_point);
        let distance = query_point.distance_to_vec3(&query_point);
        if lt(qp.dot(&normal), zero()) {
            return negate(distance);
        }
        distance
    }
}

impl<T> Bounded<T> for Triangle<T> {
    /// The box spanned by the three vertices.
    fn bounds(&self) -> BoundingBox<T> where T: Float {
        BoundingBox::new(
            Vec3::new(
                min(min(self.p[0].x, self.p[1].x), self.p[2].x),
                min(min(self.p[0].y, self.p[1].y), self.p[2].y),
                min(min(self.p[0].z, self.p[1].z), self.p[2].z),
            ),
            Vec3::new(
                max(max(self.p[0].x, self.p[1].x), self.p[2].x),
                max(max(self.p[0].y, self.p[1].y), self.p[2].y),
                max(max(self.p[0].z, self.p[1].z), self.p[2].z),
            ),
        )
    }
}

} // verus!

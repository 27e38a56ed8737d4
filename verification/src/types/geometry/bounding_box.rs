use vstd::prelude::*;
use num_traits::{Float, FloatConst};

use crate::types::computation::traits::{ImplicitComponent, ImplicitFunction};
use crate::types::computation::{Data, DataType, Parameter};
use crate::utils::float::{abs, from_usize, ge, le, min, negate, one, quotient, zero};
use crate::utils::text::str_eq;

use super::traits::{Bounded, SignedDistance};
use super::{Line, Triangle, Vec3};

verus! {

/// An axis-aligned bounding box.
#[derive(Debug, Clone, Copy)]
pub struct BoundingBox<T> {
    /// Minimum coordinate of the box.
    pub min: Vec3<T>,
    /// Maximum coordinate of the box.
    pub max: Vec3<T>,
}

/// The corner of [`BoundingBox::corners`] at vertex `v` of triangle `k` of
/// [`BoundingBox::as_triangles`]: two triangles per face, bottom, front, right, back,
/// left, then top.
pub open spec fn box_triangle_corner(k: int, v: int) -> int {
    let t: (int, int, int) = if k == 0 {
        (0, 1, 2)
    } else if k == 1 {
        (0, 2, 3)
    } else if k == 2 {
        (0, 1, 5)
    } else if k == 3 {
        (0, 5, 4)
    } else if k == 4 {
        (1, 6, 2)
    } else if k == 5 {
        (1, 5, 6)
    } else if k == 6 {
        (2, 6, 7)
    } else if k == 7 {
        (2, 7, 3)
    } else if k == 8 {
        (3, 0, 4)
    } else if k == 9 {
        (3, 4, 7)
    } else if k == 10 {
        (7, 4, 6)
    } else {
        (4, 5, 6)
    };
    if v == 0 {
        t.0
    } else if v == 1 {
        t.1
    } else {
        t.2
    }
}

impl<T> BoundingBox<T> {
    /// Create a new box from a minimum and a maximum coordinate.
    pub fn new(min: Vec3<T>, max: Vec3<T>) -> (b: BoundingBox<T>)
        ensures
            b.min == min && b.max == max,
    {
        Self { min, max }
    }
}

impl<T: Float> BoundingBox<T> {
    /// A box of zero size at the origin: its minimum and maximum are the one point whose
    /// coordinates are all zero.
    pub fn zero() -> (b: BoundingBox<T>)
        ensures
            b.min == b.max,
            b.min.x == b.min.y && b.min.y == b.min.z,
    {
        let o = Vec3::origin();
        Self { min: o, max: o }
    }

    /// The smallest box containing both boxes.
    pub fn union(&self, other: &BoundingBox<T>) -> BoundingBox<T> {
        Self { min: self.min.min(&other.min), max: self.max.max(&other.max) }
    }

    /// Size of the box in x, y and z.
    pub fn dimensions(&self) -> (T, T, T) {
        (
            crate::utils::float::difference(self.max.x, self.min.x),
            crate::utils::float::difference(self.max.y, self.min.y),
            crate::utils::float::difference(self.max.z, self.min.z),
        )
    }

    /// Whether the box contains a point, boundary included.
    pub fn contains(&self, point: &Vec3<T>) -> bool {
        self.contains_coord(point.x, point.y, point.z)
    }

    /// Whether the box contains the location `(x, y, z)`, boundary included.
    pub fn contains_coord(&self, x: T, y: T, z: T) -> bool {
        ge(x, self.min.x) && ge(y, self.min.y) && ge(z, self.min.z) && le(x, self.max.x)
            && le(y, self.max.y) && le(z, self.max.z)
    }

    /// The 8 corners of the box: 0 to 3 go round the bottom face from the minimum,
    /// 4 to 7 round the top face, and corner 6 is the maximum.
    pub fn corners(&self) -> (c: [Vec3<T>; 8])
        ensures
            c[0] == self.min,
            c[6] == self.max,
    {
        let delta = self.max.sub_vec(self.min);
        [
            self.min,
            self.min.add_vec(Vec3::new(delta.x, zero(), zero())),
            self.min.add_vec(Vec3::new(delta.x, delta.y, zero())),
            self.min.add_vec(Vec3::new(zero(), delta.y, zero())),
            self.min.add_vec(Vec3::new(zero(), zero(), delta.z)),
            self.min.add_vec(Vec3::new(delta.x, zero(), delta.z)),
            self.max,
            self.min.add_vec(Vec3::new(zero(), delta.y, delta.z)),
        ]
    }

    /// The wireframe of the box as 12 lines: the bottom loop, the top loop, then the four
    /// vertical edges, each line joining two corners from [`BoundingBox::corners`].
    pub fn as_wireframe(&self) -> (lines: [Line<T>; 12])
        ensures
            lines[0].start == self.min,
            lines[5].end == self.max,
            forall|i: int| 0 <= i < 3 ==> #[trigger] lines[i].end == lines[i + 1].start,
            lines[3].end == lines[0].start,
            forall|i: int| 4 <= i < 7 ==> #[trigger] lines[i].end == lines[i + 1].start,
            lines[7].end == lines[4].start,
            forall|i: int| 8 <= i < 12 ==> #[trigger] lines[i].start == lines[i - 8].start
                && lines[i].end == lines[i - 4].start,
    {
        let corners = self.corners();
        [
            Line::new(corners[0], corners[1]),
            Line::new(corners[1], corners[2]),
            Line::new(corners[2], corners[3]),
            Line::new(corners[3], corners[0]),
            Line::new(corners[4], corners[5]),
            Line::new(corners[5], corners[6]),
            Line::new(corners[6], corners[7]),
            Line::new(corners[7], corners[4]),
            Line::new(corners[0], corners[4]),
            Line::new(corners[1], corners[5]),
            Line::new(corners[2], corners[6]),
            Line::new(corners[3], corners[7]),
        ]
    }

    /// The box as 12 triangles, two per face, each with three of the corners of
    /// [`BoundingBox::corners`] (see [`box_triangle_corner`]) and no normals.
    pub fn as_triangles(&self) -> (triangles: [Triangle<T>; 12])
        ensures
            exists|c: Seq<Vec3<T>>|
                #![trigger c[0], c[6]]
                c.len() == 8 && c[0] == self.min && c[6] == self.max && forall|k: int, v: int|
                    0 <= k < 12 && 0 <= v < 3 ==> #[trigger] triangles[k].p[v] == c[box_triangle_corner(k, v)],
            forall|k: int| 0 <= k < 12 ==> (#[trigger] triangles[k]).n is None,
    {
        let corners = self.corners();
        let triangles = [
            Triangle::new(corners[0], corners[1], corners[2]),
            Triangle::new(corners[0], corners[2], corners[3]),
            Triangle::new(corners[0], corners[1], corners[5]),
            Triangle::new(corners[0], corners[5], corners[4]),
            Triangle::new(corners[1], corners[6], corners[2]),
            Triangle::new(corners[1], corners[5], corners[6]),
            Triangle::new(corners[2], corners[6], corners[7]),
            Triangle::new(corners[2], corners[7], corners[3]),
            Triangle::new(corners[3], corners[0], corners[4]),
            Triangle::new(corners[3], corners[4], corners[7]),
            Triangle::new(corners[7], corners[4], corners[6]),
            Triangle::new(corners[4], corners[5], corners[6]),
        ];
        proof {
            let c = corners@;
            assert(c[0] == self.min && c[6] == self.max);
            assert forall|k: int, v: int| 0 <= k < 12 && 0 <= v < 3 implies #[trigger] triangles[k].p[v] == c[box_triangle_corner(
                k,
                v,
            )] by {}
        }
        triangles
    }

    /// The centre of the box.
    pub fn centroid(&self) -> Vec3<T> {
        self.max.add_vec(self.min).scale(quotient(one(), from_usize(2)))
    }

    /// Whether the box overlaps another box, touching included.
    pub fn intersects(&self, other: &BoundingBox<T>) -> bool {
        le(self.min.x, other.max.x) && ge(self.max.x, other.min.x) && le(self.min.y, other.max.y)
            && ge(self.max.y, other.min.y) && le(self.min.z, other.max.z) && ge(self.max.z, other.min.z)
    }

    /// The closest point in the box to a point: each coordinate clamped to the box.
    pub fn closest_point(&self, point: &Vec3<T>) -> Vec3<T> {
        let x = min(crate::utils::float::max(point.x, self.min.x), self.max.x);
        let y = min(crate::utils::float::max(point.y, self.min.y), self.max.y);
        let z = min(crate::utils::float::max(point.z, self.min.z), self.max.z);
        Vec3 { x, y, z }
    }

    /// Signed distance to the box: the smallest distance to one of the six face planes,
    /// negative when the box contains the point.
    pub fn signed_distance(&self, point: &Vec3<T>) -> T {
        let diff1 = self.max.sub_vec(*point);
        let diff2 = self.min.sub_vec(*point);
        let dist = min(
            abs(diff1.x),
            min(abs(diff1.y), min(abs(diff1.z), min(abs(diff2.x), min(abs(diff2.y), abs(diff2.z))))),
        );
        if self.contains(point) {
            negate(dist)
        } else {
            dist
        }
    }

    /// The box grown by a distance in all directions.
    pub fn offset(&self, distance: T) -> BoundingBox<T> {
        let offset_vec = Vec3::new(distance, distance, distance);
        Self { min: self.min.sub_vec(offset_vec), max: self.max.add_vec(offset_vec) }
    }

    /// The union of the bounds of a non-empty list of objects.
    pub fn from_objects<Q: Bounded<T>>(objects: &[Q]) -> BoundingBox<T>
        requires
            objects@.len() > 0,
    {
        let mut total_extents = objects[0].bounds();
        let mut i: usize = 0;
        while i < objects.len()
            invariant
                i <= objects@.len(),
            decreases objects@.len() - i,
        {
            let bound = objects[i].bounds();
            total_extents = total_extents.union(&bound);
            i = i + 1;
        }
        total_extents
    }
}

impl<T> SignedDistance<T> for BoundingBox<T> {
    fn signed_distance(&self, x: T, y: T, z: T) -> T where T: Float {
        BoundingBox::signed_distance(self, &Vec3::new(x, y, z))
    }
}

impl<T: Send + Sync> ImplicitFunction<T> for BoundingBox<T> {
    open spec fn kind(&self) -> &'static str {
        "BoundingBox"
    }

    fn eval(&self, x: T, y: T, z: T) -> T where T: Float + FloatConst {
        BoundingBox::signed_distance(self, &Vec3::new(x, y, z))
    }
}

impl<T: Send + Sync> ImplicitComponent<T> for BoundingBox<T> {
    fn parameters(&self) -> (params: Vec<Parameter>)
        ensures
            params@.len() == 2,
            params@[0].name@ == "Min"@ && params@[0].data_type == DataType::Vec3,
            params@[1].name@ == "Max"@ && params@[1].data_type == DataType::Vec3,
    {
        vec![Parameter::new("Min", DataType::Vec3), Parameter::new("Max", DataType::Vec3)]
    }

    fn set_parameter(&mut self, parameter_name: &str, data: Data<T>) where T: Float
        ensures
            data is Vec3 && parameter_name@ == "Min"@ ==> final(self).min == data->Vec3_0
                && final(self).max == old(self).max,
            data is Vec3 && parameter_name@ != "Min"@ && parameter_name@ == "Max"@ ==> final(self).max
                == data->Vec3_0 && final(self).min == old(self).min,
            !(data is Vec3 && (parameter_name@ == "Min"@ || parameter_name@ == "Max"@)) ==> *final(self)
                == *old(self),
    {
        if !Parameter::set_vec3_from_param(parameter_name, &data, "Min", &mut self.min) {
            Parameter::set_vec3_from_param(parameter_name, &data, "Max", &mut self.max);
        }
    }

    fn read_parameter(&self, parameter_name: &str) -> (data: Option<Data<T>>) where T: Float
        ensures
            data == (if parameter_name@ == "Min"@ {
                Some(Data::Vec3(self.min))
            } else if parameter_name@ == "Max"@ {
                Some(Data::Vec3(self.max))
            } else {
                None
            }),
    {
        if str_eq(parameter_name, "Min") {
            Some(Data::Vec3(self.min))
        } else if str_eq(parameter_name, "Max") {
            Some(Data::Vec3(self.max))
        } else {
            None
        }
    }

    fn name(&self) -> (n: &'static str)
        ensures
            n == self.kind(),
    {
        "BoundingBox"
    }
}

} // verus!

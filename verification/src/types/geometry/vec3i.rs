use vstd::prelude::*;

verus! {

/// A triple of counts or indices, one per axis.
#[derive(Debug, Clone, Copy, PartialEq, Eq, Structural)]
pub struct Vec3i {
    pub i: usize,
    pub j: usize,
    pub k: usize,
}

impl Vec3i {
    /// Create a triple from its three entries.
    pub fn new(i: usize, j: usize, k: usize) -> (v: Vec3i)
        ensures
            v == (Vec3i { i, j, k }),
    {
        Vec3i { i, j, k }
    }

    /// The product of the three entries, as a mathematical integer.
    pub open spec fn count(self) -> int {
        self.i * self.j * self.k
    }

    /// The product of the three entries.
    pub fn product(&self) -> (p: usize)
        requires
            self.count() <= usize::MAX,
        ensures
            p == self.count(),
    {
        proof {
            assert(self.i * self.j <= self.i * self.j * self.k || self.k == 0) by (nonlinear_arith)
                requires
                    self.i >= 0,
                    self.j >= 0,
                    self.k >= 0,
            ;
            if self.k == 0 {
                assert(self.i * self.j * self.k == 0) by (nonlinear_arith)
                    requires
                        self.k == 0,
                ;
            }
        }
        if self.k == 0 {
            0
        } else {
            self.i * self.j * self.k
        }
    }

    /// The product of the three entries, or `None` where it does not fit in a `usize`.
    pub fn checked_product(&self) -> (p: Option<usize>)
        ensures
            match p {
                Some(v) => v == self.count(),
                None => self.count() > usize::MAX,
            },
    {
        if self.k == 0 {
            proof {
                assert(self.i * self.j * self.k == 0) by (nonlinear_arith)
                    requires
                        self.k == 0,
                ;
            }
            return Some(0);
        }
        match self.i.checked_mul(self.j) {
            Some(ij) => match ij.checked_mul(self.k) {
                Some(v) => Some(v),
                None => None,
            },
            None => {
                proof {
                    assert(self.i * self.j <= self.i * self.j * self.k) by (nonlinear_arith)
                        requires
                            self.k >= 1,
                            self.i >= 0,
                            self.j >= 0,
                    ;
                }
                None
            },
        }
    }

    /// The three entries as a tuple.
    pub fn to_tuple(&self) -> (t: (usize, usize, usize))
        ensures
            t == (self.i, self.j, self.k),
    {
        (self.i, self.j, self.k)
    }
}

impl From<(usize, usize, usize)> for Vec3i {
    fn from(value: (usize, usize, usize)) -> (v: Vec3i) {
        Vec3i { i: value.0, j: value.1, k: value.2 }
    }
}

impl vstd::std_specs::convert::FromSpecImpl<(usize, usize, usize)> for Vec3i {
    open spec fn obeys_from_spec() -> bool {
        true
    }

    open spec fn from_spec(v: (usize, usize, usize)) -> Vec3i {
        Vec3i { i: v.0, j: v.1, k: v.2 }
    }
}

} // verus!

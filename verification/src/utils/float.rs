use vstd::prelude::*;
use num_traits::Float;
use vstd::std_specs::cmp::{PartialEqSpec, PartialOrdSpec};

verus! {

// The scalar type of the library is any `num_traits::Float`. Its values are opaque to
// the proofs: the items below make the calls into its arithmetic, and state nothing of
// the values they return, as no statement holds of every `Float` implementation.

/// `Float::zero` of the scalar type. Nothing is stated of the value returned.
#[verifier::external_body]
pub(crate) fn zero<T: Float>() -> T {
    T::zero()
}

/// `Float::one` of the scalar type. Nothing is stated of the value returned.
#[verifier::external_body]
pub(crate) fn one<T: Float>() -> T {
    T::one()
}

/// `Float::epsilon`, the machine epsilon of the scalar type. Nothing is stated of the value returned.
#[verifier::external_body]
pub(crate) fn epsilon<T: Float>() -> T {
    T::epsilon()
}

/// `Float::max_value`, the largest finite value of the scalar type. Nothing is stated of the value returned.
#[verifier::external_body]
pub(crate) fn max_value<T: Float>() -> T {
    T::max_value()
}

/// `Float::nan`, the not-a-number value of the scalar type. Nothing is stated of the value returned.
#[verifier::external_body]
pub(crate) fn nan<T: Float>() -> T {
    T::nan()
}

/// `std::ops::Add::add` on the scalar type. Nothing is stated of the value returned.
#[verifier::external_body]
pub(crate) fn sum<T: Float>(a: T, b: T) -> T {
    std::ops::Add::add(a, b)
}

/// `std::ops::Sub::sub` on the scalar type. Nothing is stated of the value returned.
#[verifier::external_body]
pub(crate) fn difference<T: Float>(a: T, b: T) -> T {
    std::ops::Sub::sub(a, b)
}

/// `std::ops::Mul::mul` on the scalar type. Nothing is stated of the value returned.
#[verifier::external_body]
pub(crate) fn product<T: Float>(a: T, b: T) -> T {
    std::ops::Mul::mul(a, b)
}

/// `std::ops::Div::div` on the scalar type. Nothing is stated of the value returned.
#[verifier::external_body]
pub(crate) fn quotient<T: Float>(a: T, b: T) -> T {
    std::ops::Div::div(a, b)
}

/// `std::ops::Neg::neg` on the scalar type. Nothing is stated of the value returned.
#[verifier::external_body]
pub(crate) fn negate<T: Float>(a: T) -> T {
    std::ops::Neg::neg(a)
}

/// `Float::abs`. Nothing is stated of the value returned.
#[verifier::external_body]
pub(crate) fn abs<T: Float>(a: T) -> T {
    Float::abs(a)
}

/// The scalar type's `==` and `<` follow vstd's specifications of `PartialEq` and
/// `PartialOrd`, with the laws of a partial order (see `vstd::laws_cmp`).
pub open spec fn ordered<T: Float>() -> bool {
    &&& T::obeys_eq_spec()
    &&& T::obeys_partial_cmp_spec()
    &&& vstd::laws_cmp::obeys_partial_cmp_spec_properties::<T>()
}

/// `a` compares below `b`.
pub open spec fn below<T: Float>(a: T, b: T) -> bool {
    a.partial_cmp_spec(&b) == Some(core::cmp::Ordering::Less)
}

/// `a` is a number: it equals itself (not a NaN).
pub open spec fn is_number<T: Float>(a: T) -> bool {
    a.eq_spec(&a)
}

/// The smaller of two numbers; where one is not a number, the other. This is
/// `Float::min` as num-traits documents it ("Returns the minimum of the two numbers") and
/// as the primitive floats define it (a NaN argument gives the other one).
pub(crate) fn min<T: Float>(a: T, b: T) -> (r: T)
    ensures
        r == a || r == b,
        ordered::<T>() ==> {
            &&& !is_number(a) ==> r == b
            &&& is_number(a) && !is_number(b) ==> r == a
            &&& is_number(a) && is_number(b) ==> !below(a, r) && !below(b, r)
        },
{
    proof {
        if ordered::<T>() {
            reveal(vstd::laws_cmp::obeys_partial_cmp_spec_properties);
        }
    }
    if a != a {
        b
    } else if b != b {
        a
    } else if b < a {
        b
    } else {
        a
    }
}

/// The larger of two numbers; where one is not a number, the other. This is
/// `Float::max` as num-traits documents it ("Returns the maximum of the two numbers") and
/// as the primitive floats define it (a NaN argument gives the other one).
pub(crate) fn max<T: Float>(a: T, b: T) -> (r: T)
    ensures
        r == a || r == b,
        ordered::<T>() ==> {
            &&& !is_number(a) ==> r == b
            &&& is_number(a) && !is_number(b) ==> r == a
            &&& is_number(a) && is_number(b) ==> !below(r, a) && !below(r, b)
        },
{
    proof {
        if ordered::<T>() {
            reveal(vstd::laws_cmp::obeys_partial_cmp_spec_properties);
        }
    }
    if a != a {
        b
    } else if b != b {
        a
    } else if a < b {
        b
    } else {
        a
    }
}

/// `Float::sqrt`. Nothing is stated of the value returned.
#[verifier::external_body]
pub(crate) fn sqrt<T: Float>(a: T) -> T {
    Float::sqrt(a)
}

/// `Float::powi`, integer power. Nothing is stated of the value returned.
#[verifier::external_body]
pub(crate) fn powi<T: Float>(a: T, n: i32) -> T {
    Float::powi(a, n)
}

/// `Float::floor`. Nothing is stated of the value returned.
#[verifier::external_body]
pub(crate) fn floor<T: Float>(a: T) -> T {
    Float::floor(a)
}

/// `Float::ceil`. Nothing is stated of the value returned.
#[verifier::external_body]
pub(crate) fn ceil<T: Float>(a: T) -> T {
    Float::ceil(a)
}

/// `Float::sin`. Nothing is stated of the value returned.
#[verifier::external_body]
pub(crate) fn sin<T: Float>(a: T) -> T {
    Float::sin(a)
}

/// `Float::cos`. Nothing is stated of the value returned.
#[verifier::external_body]
pub(crate) fn cos<T: Float>(a: T) -> T {
    Float::cos(a)
}

/// `Float::asin`. Nothing is stated of the value returned.
#[verifier::external_body]
pub(crate) fn asin<T: Float>(a: T) -> T {
    Float::asin(a)
}

/// `Float::acos`. Nothing is stated of the value returned.
#[verifier::external_body]
pub(crate) fn acos<T: Float>(a: T) -> T {
    Float::acos(a)
}

/// `PartialOrd::lt` on the scalar type (`a < b`). Nothing is stated of the answer.
#[verifier::external_body]
pub(crate) fn lt<T: Float>(a: T, b: T) -> bool {
    a < b
}

/// `PartialOrd::le` on the scalar type (`a <= b`). Nothing is stated of the answer.
#[verifier::external_body]
pub(crate) fn le<T: Float>(a: T, b: T) -> bool {
    a <= b
}

/// `PartialOrd::gt` on the scalar type (`a > b`). Nothing is stated of the answer.
#[verifier::external_body]
pub(crate) fn gt<T: Float>(a: T, b: T) -> bool {
    a > b
}

/// `PartialOrd::ge` on the scalar type (`a >= b`). Nothing is stated of the answer.
#[verifier::external_body]
pub(crate) fn ge<T: Float>(a: T, b: T) -> bool {
    a >= b
}

/// `PartialEq::eq` on the scalar type (`a == b`). Nothing is stated of the answer.
#[verifier::external_body]
pub(crate) fn eq<T: Float>(a: T, b: T) -> bool {
    a == b
}

/// `num_traits::Zero::is_zero` on the scalar type. Nothing is stated of the answer.
#[verifier::external_body]
pub(crate) fn is_zero<T: Float>(a: T) -> bool {
    a.is_zero()
}

/// `a` held to `[min, max]`: `min` where `a < min`, else `max` where `a > max`, else `a`.
/// This is how num-traits defines `Float::clamp`; written here with the scalar's own
/// comparisons, it does not stop on bounds that are unordered (or not numbers), which
/// num-traits asserts against in debug builds. The result is one of the three arguments.
pub(crate) fn clamp<T: Float>(a: T, min: T, max: T) -> (r: T)
    ensures
        r == a || r == min || r == max,
{
    if lt(a, min) {
        min
    } else if gt(a, max) {
        max
    } else {
        a
    }
}

/// `num_traits::FloatConst::PI` of the scalar type. Nothing is stated of the value.
#[verifier::external_body]
pub(crate) fn pi<T: Float + num_traits::FloatConst>() -> T {
    T::PI()
}

/// `num_traits::NumCast::from` for a `usize`: `None` where the scalar type has no value
/// for it. The primitive floats have one for every `usize`. Nothing more is stated.
#[verifier::external_body]
fn cast_usize<T: Float>(n: usize) -> Option<T> {
    <T as num_traits::NumCast>::from(n)
}

/// The scalar with the value `n`, by `NumCast::from` (see [`cast_usize`]). Where the scalar
/// type has no value for `n` through that cast, the value is built from one instead, by
/// doubling and adding one along the binary digits of `n`, so that no scalar type makes
/// the library stop. Nothing is stated of the value.
pub(crate) fn from_usize<T: Float>(n: usize) -> T {
    match cast_usize(n) {
        Some(v) => v,
        None => built_from_one(n),
    }
}

/// `n` built from the scalar one: twice the value of `n / 2`, plus one where `n` is odd.
fn built_from_one<T: Float>(n: usize) -> T
    decreases n,
{
    if n == 0 {
        zero()
    } else {
        let half: T = built_from_one(n / 2);
        let twice = sum(half, half);
        if n % 2 == 1 {
            sum(twice, one())
        } else {
            twice
        }
    }
}

/// `num_traits::ToPrimitive::to_usize`: `None` where the value has no `usize` (negative,
/// not a number, too large). Nothing more is stated.
#[verifier::external_body]
pub(crate) fn to_usize<T: Float>(a: T) -> Option<usize> {
    a.to_usize()
}

/// `num_traits::NumCast::from` from one scalar type to another: `None` where the value
/// has no counterpart in the target type. Nothing more is stated.
#[verifier::external_body]
pub(crate) fn cast<T: Float, Q: Float>(a: T) -> Option<Q> {
    <Q as num_traits::NumCast>::from(a)
}


} // verus!

//! Scalars and small column vectors for the matrix types.
//!
//! The matrix constructors are generic over the scalar, asking of it only
//! what they use: the constants zero, one and two, and exact, guarded
//! arithmetic. Every operation carries a definedness guard, so a verified
//! caller proves its arithmetic stays inside the scalar's machine limits.

use vstd::prelude::*;

verus! {

/// A scalar the vector and matrix types can be built over: known constants
/// and exact, guarded arithmetic.
pub trait Scalar: Copy + Send + Sync {
    /// The additive identity.
    spec fn zero_spec() -> Self;

    /// The multiplicative identity.
    spec fn one_spec() -> Self;

    /// One plus one.
    spec fn two_spec() -> Self;

    /// What `add` returns when defined.
    spec fn add_spec(a: Self, b: Self) -> Self;

    /// Whether `a + b` stays inside the machine limits.
    spec fn add_ok(a: Self, b: Self) -> bool;

    /// What `sub` returns when defined.
    spec fn sub_spec(a: Self, b: Self) -> Self;

    /// Whether `a - b` stays inside the machine limits.
    spec fn sub_ok(a: Self, b: Self) -> bool;

    /// What `mul` returns when defined.
    spec fn mul_spec(a: Self, b: Self) -> Self;

    /// Whether `a * b` stays inside the machine limits.
    spec fn mul_ok(a: Self, b: Self) -> bool;

    /// What `div` returns when defined.
    spec fn div_spec(a: Self, b: Self) -> Self;

    /// Whether `a / b` is defined and stays inside the machine limits.
    spec fn div_ok(a: Self, b: Self) -> bool;

    /// What `neg` returns when defined.
    spec fn neg_spec(a: Self) -> Self;

    /// Whether `-a` stays inside the machine limits.
    spec fn neg_ok(a: Self) -> bool;

    /// The additive identity.
    fn zero() -> (r: Self)
        ensures
            r == Self::zero_spec(),
    ;

    /// The multiplicative identity.
    fn one() -> (r: Self)
        ensures
            r == Self::one_spec(),
    ;

    /// One plus one.
    fn two() -> (r: Self)
        ensures
            r == Self::two_spec(),
    ;

    /// Exact addition, defined under `add_ok`.
    fn add(a: Self, b: Self) -> (r: Self)
        requires
            Self::add_ok(a, b),
        ensures
            r == Self::add_spec(a, b),
    ;

    /// Exact subtraction, defined under `sub_ok`.
    fn sub(a: Self, b: Self) -> (r: Self)
        requires
            Self::sub_ok(a, b),
        ensures
            r == Self::sub_spec(a, b),
    ;

    /// Exact multiplication, defined under `mul_ok`.
    fn mul(a: Self, b: Self) -> (r: Self)
        requires
            Self::mul_ok(a, b),
        ensures
            r == Self::mul_spec(a, b),
    ;

    /// Exact division, defined under `div_ok`.
    fn div(a: Self, b: Self) -> (r: Self)
        requires
            Self::div_ok(a, b),
        ensures
            r == Self::div_spec(a, b),
    ;

    /// Exact negation, defined under `neg_ok`.
    fn neg(a: Self) -> (r: Self)
        requires
            Self::neg_ok(a),
        ensures
            r == Self::neg_spec(a),
    ;
}

impl Scalar for i64 {
    open spec fn zero_spec() -> i64 {
        0
    }

    open spec fn one_spec() -> i64 {
        1
    }

    open spec fn two_spec() -> i64 {
        2
    }

    open spec fn add_spec(a: i64, b: i64) -> i64 {
        (a + b) as i64
    }

    open spec fn add_ok(a: i64, b: i64) -> bool {
        i64::MIN <= a + b <= i64::MAX
    }

    open spec fn sub_spec(a: i64, b: i64) -> i64 {
        (a - b) as i64
    }

    open spec fn sub_ok(a: i64, b: i64) -> bool {
        i64::MIN <= a - b <= i64::MAX
    }

    open spec fn mul_spec(a: i64, b: i64) -> i64 {
        (a * b) as i64
    }

    open spec fn mul_ok(a: i64, b: i64) -> bool {
        i64::MIN <= a * b <= i64::MAX
    }

    open spec fn div_spec(a: i64, b: i64) -> i64 {
        (a as int / b as int) as i64
    }

    // Narrower than the machine demands, by choice: on a nonnegative
    // dividend and a positive divisor the machine's truncated division and
    // the mathematical division of the contract agree exactly. Negative
    // extents are handled by negating outside the division, as the matrix
    // constructors do.
    open spec fn div_ok(a: i64, b: i64) -> bool {
        a >= 0 && b > 0
    }

    open spec fn neg_spec(a: i64) -> i64 {
        (-a) as i64
    }

    open spec fn neg_ok(a: i64) -> bool {
        a != i64::MIN
    }

    fn zero() -> i64 {
        0
    }

    fn one() -> i64 {
        1
    }

    fn two() -> i64 {
        2
    }

    fn add(a: i64, b: i64) -> i64 {
        a + b
    }

    fn sub(a: i64, b: i64) -> i64 {
        a - b
    }

    fn mul(a: i64, b: i64) -> i64 {
        a * b
    }

    fn div(a: i64, b: i64) -> (r: i64) {
        a / b
    }

    fn neg(a: i64) -> i64 {
        -a
    }
}

/// A column vector of two scalars.
#[derive(Debug, Clone, Copy, PartialEq, Eq)]
pub struct Vector2<T> {
    /// First component.
    pub x: T,
    /// Second component.
    pub y: T,
}

/// A column vector of three scalars.
#[derive(Debug, Clone, Copy, PartialEq, Eq)]
pub struct Vector3<T> {
    /// First component.
    pub x: T,
    /// Second component.
    pub y: T,
    /// Third component.
    pub z: T,
}

/// A column vector of four scalars.
#[derive(Debug, Clone, Copy, PartialEq, Eq)]
pub struct Vector4<T> {
    /// First component.
    pub x: T,
    /// Second component.
    pub y: T,
    /// Third component.
    pub z: T,
    /// Fourth component.
    pub w: T,
}

impl<T: Scalar> Vector2<T> {
    /// The vector with the given components.
    pub fn new(x: T, y: T) -> (v: Vector2<T>)
        ensures
            v == (Vector2 { x, y }),
    {
        Vector2 { x, y }
    }
}

impl<T: Scalar> Vector3<T> {
    /// The vector with the given components.
    pub fn new(x: T, y: T, z: T) -> (v: Vector3<T>)
        ensures
            v == (Vector3 { x, y, z }),
    {
        Vector3 { x, y, z }
    }
}

impl<T: Scalar> Vector4<T> {
    /// The vector with the given components.
    pub fn new(x: T, y: T, z: T, w: T) -> (v: Vector4<T>)
        ensures
            v == (Vector4 { x, y, z, w }),
    {
        Vector4 { x, y, z, w }
    }
}

} // verus!

//! Column-major matrices over a [`Scalar`], with exact entry-by-entry
//! contracts: every constructor pins each entry, and the projection
//! constructors state each entry as the guarded arithmetic they perform.

use vstd::prelude::*;

use crate::vector::Scalar;
use crate::vector::Vector2;
use crate::vector::Vector3;
use crate::vector::Vector4;

verus! {

/// A three-by-three column-major matrix.
#[derive(Debug, Clone, Copy, PartialEq, Eq)]
pub struct Matrix3<T> {
    /// First column.
    pub axis_x: Vector3<T>,
    /// Second column.
    pub axis_y: Vector3<T>,
    /// Third column.
    pub axis_z: Vector3<T>,
}

/// A four-by-four column-major matrix.
#[derive(Debug, Clone, Copy, PartialEq, Eq)]
pub struct Matrix4<T> {
    /// First column.
    pub axis_x: Vector4<T>,
    /// Second column.
    pub axis_y: Vector4<T>,
    /// Third column.
    pub axis_z: Vector4<T>,
    /// Fourth column.
    pub axis_w: Vector4<T>,
}

impl<T: Scalar> Matrix3<T> {
    /// The matrix with the given columns.
    pub fn from_columns(axis_x: Vector3<T>, axis_y: Vector3<T>, axis_z: Vector3<T>) -> (m: Matrix3<
        T,
    >)
        ensures
            m == (Matrix3 { axis_x, axis_y, axis_z }),
    {
        Matrix3 { axis_x, axis_y, axis_z }
    }

    /// The matrix with the given entries, column by column: `cCrR` is the
    /// entry of column `C`, row `R`.
    pub fn new(
        c0r0: T,
        c0r1: T,
        c0r2: T,
        c1r0: T,
        c1r1: T,
        c1r2: T,
        c2r0: T,
        c2r1: T,
        c2r2: T,
    ) -> (m: Matrix3<T>)
        ensures
            m.axis_x == (Vector3 { x: c0r0, y: c0r1, z: c0r2 }),
            m.axis_y == (Vector3 { x: c1r0, y: c1r1, z: c1r2 }),
            m.axis_z == (Vector3 { x: c2r0, y: c2r1, z: c2r2 }),
    {
        Matrix3::from_columns(
            Vector3::new(c0r0, c0r1, c0r2),
            Vector3::new(c1r0, c1r1, c1r2),
            Vector3::new(c2r0, c2r1, c2r2),
        )
    }

    /// The homogeneous two-dimensional translation by `v`.
    pub fn from_translation(v: Vector2<T>) -> (m: Matrix3<T>)
        ensures
            m.axis_x == (Vector3 { x: T::one_spec(), y: T::zero_spec(), z: T::zero_spec() }),
            m.axis_y == (Vector3 { x: T::zero_spec(), y: T::one_spec(), z: T::zero_spec() }),
            m.axis_z == (Vector3 { x: v.x, y: v.y, z: T::one_spec() }),
    {
        Matrix3 {
            axis_x: Vector3 { x: T::one(), y: T::zero(), z: T::zero() },
            axis_y: Vector3 { x: T::zero(), y: T::one(), z: T::zero() },
            axis_z: Vector3 { x: v.x, y: v.y, z: T::one() },
        }
    }

    /// The two-dimensional scale by `v.x` and `v.y`.
    pub fn from_scale_vector(v: Vector3<T>) -> (m: Matrix3<T>)
        ensures
            m.axis_x == (Vector3 { x: v.x, y: T::zero_spec(), z: T::zero_spec() }),
            m.axis_y == (Vector3 { x: T::zero_spec(), y: v.y, z: T::zero_spec() }),
            m.axis_z == (Vector3 { x: T::zero_spec(), y: T::zero_spec(), z: T::one_spec() }),
    {
        Matrix3 {
            axis_x: Vector3 { x: v.x, y: T::zero(), z: T::zero() },
            axis_y: Vector3 { x: T::zero(), y: v.y, z: T::zero() },
            axis_z: Vector3 { x: T::zero(), y: T::zero(), z: T::one() },
        }
    }

    /// The two-dimensional scale by `x` and `y`.
    pub fn from_scale(x: T, y: T) -> (m: Matrix3<T>)
        ensures
            m.axis_x == (Vector3 { x, y: T::zero_spec(), z: T::zero_spec() }),
            m.axis_y == (Vector3 { x: T::zero_spec(), y, z: T::zero_spec() }),
            m.axis_z == (Vector3 { x: T::zero_spec(), y: T::zero_spec(), z: T::one_spec() }),
    {
        Matrix3 {
            axis_x: Vector3 { x, y: T::zero(), z: T::zero() },
            axis_y: Vector3 { x: T::zero(), y, z: T::zero() },
            axis_z: Vector3 { x: T::zero(), y: T::zero(), z: T::one() },
        }
    }

    /// The transpose: rows and columns exchanged.
    pub fn get_transpose(&self) -> (m: Matrix3<T>)
        ensures
            m.axis_x == (Vector3 { x: self.axis_x.x, y: self.axis_y.x, z: self.axis_z.x }),
            m.axis_y == (Vector3 { x: self.axis_x.y, y: self.axis_y.y, z: self.axis_z.y }),
            m.axis_z == (Vector3 { x: self.axis_x.z, y: self.axis_y.z, z: self.axis_z.z }),
    {
        Matrix3::new(
            self.axis_x.x,
            self.axis_y.x,
            self.axis_z.x,
            self.axis_x.y,
            self.axis_y.y,
            self.axis_z.y,
            self.axis_x.z,
            self.axis_y.z,
            self.axis_z.z,
        )
    }
}

impl<T: Scalar> Matrix4<T> {
    /// The matrix with the given columns.
    pub fn from_columns(
        axis_x: Vector4<T>,
        axis_y: Vector4<T>,
        axis_z: Vector4<T>,
        axis_w: Vector4<T>,
    ) -> (m: Matrix4<T>)
        ensures
            m == (Matrix4 { axis_x, axis_y, axis_z, axis_w }),
    {
        Matrix4 { axis_x, axis_y, axis_z, axis_w }
    }

    /// The matrix with the given entries, column by column: `cCrR` is the
    /// entry of column `C`, row `R`.
    pub fn new(
        c0r0: T,
        c0r1: T,
        c0r2: T,
        c0r3: T,
        c1r0: T,
        c1r1: T,
        c1r2: T,
        c1r3: T,
        c2r0: T,
        c2r1: T,
        c2r2: T,
        c2r3: T,
        c3r0: T,
        c3r1: T,
        c3r2: T,
        c3r3: T,
    ) -> (m: Matrix4<T>)
        ensures
            m.axis_x == (Vector4 { x: c0r0, y: c0r1, z: c0r2, w: c0r3 }),
            m.axis_y == (Vector4 { x: c1r0, y: c1r1, z: c1r2, w: c1r3 }),
            m.axis_z == (Vector4 { x: c2r0, y: c2r1, z: c2r2, w: c2r3 }),
            m.axis_w == (Vector4 { x: c3r0, y: c3r1, z: c3r2, w: c3r3 }),
    {
        Matrix4::from_columns(
            Vector4::new(c0r0, c0r1, c0r2, c0r3),
            Vector4::new(c1r0, c1r1, c1r2, c1r3),
            Vector4::new(c2r0, c2r1, c2r2, c2r3),
            Vector4::new(c3r0, c3r1, c3r2, c3r3),
        )
    }

    /// The homogeneous three-dimensional translation by `v`.
    pub fn from_translation(v: Vector3<T>) -> (m: Matrix4<T>)
        ensures
            m.axis_x == (Vector4 {
                x: T::one_spec(),
                y: T::zero_spec(),
                z: T::zero_spec(),
                w: T::zero_spec(),
            }),
            m.axis_y == (Vector4 {
                x: T::zero_spec(),
                y: T::one_spec(),
                z: T::zero_spec(),
                w: T::zero_spec(),
            }),
            m.axis_z == (Vector4 {
                x: T::zero_spec(),
                y: T::zero_spec(),
                z: T::one_spec(),
                w: T::zero_spec(),
            }),
            m.axis_w == (Vector4 { x: v.x, y: v.y, z: v.z, w: T::one_spec() }),
    {
        Matrix4 {
            axis_x: Vector4 { x: T::one(), y: T::zero(), z: T::zero(), w: T::zero() },
            axis_y: Vector4 { x: T::zero(), y: T::one(), z: T::zero(), w: T::zero() },
            axis_z: Vector4 { x: T::zero(), y: T::zero(), z: T::one(), w: T::zero() },
            axis_w: Vector4 { x: v.x, y: v.y, z: v.z, w: T::one() },
        }
    }

    /// The three-dimensional scale by `v.x`, `v.y` and `v.z`.
    pub fn from_scale_vector(v: Vector4<T>) -> (m: Matrix4<T>)
        ensures
            m.axis_x == (Vector4 {
                x: v.x,
                y: T::zero_spec(),
                z: T::zero_spec(),
                w: T::zero_spec(),
            }),
            m.axis_y == (Vector4 {
                x: T::zero_spec(),
                y: v.y,
                z: T::zero_spec(),
                w: T::zero_spec(),
            }),
            m.axis_z == (Vector4 {
                x: T::zero_spec(),
                y: T::zero_spec(),
                z: v.z,
                w: T::zero_spec(),
            }),
            m.axis_w == (Vector4 {
                x: T::zero_spec(),
                y: T::zero_spec(),
                z: T::zero_spec(),
                w: T::one_spec(),
            }),
    {
        Matrix4 {
            axis_x: Vector4 { x: v.x, y: T::zero(), z: T::zero(), w: T::zero() },
            axis_y: Vector4 { x: T::zero(), y: v.y, z: T::zero(), w: T::zero() },
            axis_z: Vector4 { x: T::zero(), y: T::zero(), z: v.z, w: T::zero() },
            axis_w: Vector4 { x: T::zero(), y: T::zero(), z: T::zero(), w: T::one() },
        }
    }

    /// The three-dimensional scale by `x`, `y` and `z`.
    pub fn from_scale(x: T, y: T, z: T) -> (m: Matrix4<T>)
        ensures
            m.axis_x == (Vector4 { x, y: T::zero_spec(), z: T::zero_spec(), w: T::zero_spec() }),
            m.axis_y == (Vector4 { x: T::zero_spec(), y, z: T::zero_spec(), w: T::zero_spec() }),
            m.axis_z == (Vector4 { x: T::zero_spec(), y: T::zero_spec(), z, w: T::zero_spec() }),
            m.axis_w == (Vector4 {
                x: T::zero_spec(),
                y: T::zero_spec(),
                z: T::zero_spec(),
                w: T::one_spec(),
            }),
    {
        Matrix4 {
            axis_x: Vector4 { x, y: T::zero(), z: T::zero(), w: T::zero() },
            axis_y: Vector4 { x: T::zero(), y, z: T::zero(), w: T::zero() },
            axis_z: Vector4 { x: T::zero(), y: T::zero(), z, w: T::zero() },
            axis_w: Vector4 { x: T::zero(), y: T::zero(), z: T::zero(), w: T::one() },
        }
    }

    /// The perspective projection of the frustum with the given planes. Each
    /// entry is the guarded arithmetic the contract states; the caller
    /// proves the definedness guards, in particular that the frustum is not
    /// degenerate (no division is attempted over an empty extent).
    pub fn create_frustum(left: T, right: T, bottom: T, top: T, near_plane: T, far_plane: T) -> (m:
        Matrix4<T>)
        requires
            T::mul_ok(T::two_spec(), near_plane),
            T::sub_ok(right, left),
            T::sub_ok(top, bottom),
            T::sub_ok(far_plane, near_plane),
            T::add_ok(right, left),
            T::add_ok(top, bottom),
            T::add_ok(far_plane, near_plane),
            T::div_ok(T::mul_spec(T::two_spec(), near_plane), T::sub_spec(right, left)),
            T::div_ok(T::mul_spec(T::two_spec(), near_plane), T::sub_spec(top, bottom)),
            T::div_ok(T::add_spec(right, left), T::sub_spec(right, left)),
            T::div_ok(T::add_spec(top, bottom), T::sub_spec(top, bottom)),
            T::div_ok(T::add_spec(far_plane, near_plane), T::sub_spec(far_plane, near_plane)),
            T::neg_ok(
                T::div_spec(
                    T::add_spec(far_plane, near_plane),
                    T::sub_spec(far_plane, near_plane),
                ),
            ),
            T::mul_ok(T::mul_spec(T::two_spec(), near_plane), far_plane),
            T::div_ok(
                T::mul_spec(T::mul_spec(T::two_spec(), near_plane), far_plane),
                T::sub_spec(far_plane, near_plane),
            ),
            T::neg_ok(
                T::div_spec(
                    T::mul_spec(T::mul_spec(T::two_spec(), near_plane), far_plane),
                    T::sub_spec(far_plane, near_plane),
                ),
            ),
            T::neg_ok(T::one_spec()),
        ensures
            m.axis_x == (Vector4 {
                x: T::div_spec(T::mul_spec(T::two_spec(), near_plane), T::sub_spec(right, left)),
                y: T::zero_spec(),
                z: T::zero_spec(),
                w: T::zero_spec(),
            }),
            m.axis_y == (Vector4 {
                x: T::zero_spec(),
                y: T::div_spec(T::mul_spec(T::two_spec(), near_plane), T::sub_spec(top, bottom)),
                z: T::zero_spec(),
                w: T::zero_spec(),
            }),
            m.axis_z == (Vector4 {
                x: T::div_spec(T::add_spec(right, left), T::sub_spec(right, left)),
                y: T::div_spec(T::add_spec(top, bottom), T::sub_spec(top, bottom)),
                z: T::neg_spec(
                    T::div_spec(
                        T::add_spec(far_plane, near_plane),
                        T::sub_spec(far_plane, near_plane),
                    ),
                ),
                w: T::neg_spec(T::one_spec()),
            }),
            m.axis_w == (Vector4 {
                x: T::zero_spec(),
                y: T::zero_spec(),
                z: T::neg_spec(
                    T::div_spec(
                        T::mul_spec(T::mul_spec(T::two_spec(), near_plane), far_plane),
                        T::sub_spec(far_plane, near_plane),
                    ),
                ),
                w: T::zero_spec(),
            }),
    {
        let two_near = T::mul(T::two(), near_plane);

        let c0r0 = T::div(two_near, T::sub(right, left));
        let c1r1 = T::div(two_near, T::sub(top, bottom));
        let c2r0 = T::div(T::add(right, left), T::sub(right, left));
        let c2r1 = T::div(T::add(top, bottom), T::sub(top, bottom));
        let c2r2 = T::neg(
            T::div(T::add(far_plane, near_plane), T::sub(far_plane, near_plane)),
        );
        let c2r3 = T::neg(T::one());
        let c3r2 = T::neg(T::div(T::mul(two_near, far_plane), T::sub(far_plane, near_plane)));

        Matrix4::new(
            c0r0,
            T::zero(),
            T::zero(),
            T::zero(),
            T::zero(),
            c1r1,
            T::zero(),
            T::zero(),
            c2r0,
            c2r1,
            c2r2,
            c2r3,
            T::zero(),
            T::zero(),
            c3r2,
            T::zero(),
        )
    }

    /// The orthographic projection of the box with the given planes. Each
    /// entry is the guarded arithmetic the contract states; the caller
    /// proves the definedness guards.
    pub fn create_orthographic(
        left: T,
        right: T,
        bottom: T,
        top: T,
        near_plane: T,
        far_plane: T,
    ) -> (m: Matrix4<T>)
        requires
            T::sub_ok(right, left),
            T::sub_ok(top, bottom),
            T::sub_ok(far_plane, near_plane),
            T::add_ok(right, left),
            T::add_ok(top, bottom),
            T::add_ok(far_plane, near_plane),
            T::div_ok(T::two_spec(), T::sub_spec(right, left)),
            T::div_ok(T::two_spec(), T::sub_spec(top, bottom)),
            T::div_ok(T::two_spec(), T::sub_spec(far_plane, near_plane)),
            T::neg_ok(T::div_spec(T::two_spec(), T::sub_spec(far_plane, near_plane))),
            T::div_ok(T::add_spec(right, left), T::sub_spec(right, left)),
            T::neg_ok(T::div_spec(T::add_spec(right, left), T::sub_spec(right, left))),
            T::div_ok(T::add_spec(top, bottom), T::sub_spec(top, bottom)),
            T::neg_ok(T::div_spec(T::add_spec(top, bottom), T::sub_spec(top, bottom))),
            T::div_ok(T::add_spec(far_plane, near_plane), T::sub_spec(far_plane, near_plane)),
            T::neg_ok(
                T::div_spec(
                    T::add_spec(far_plane, near_plane),
                    T::sub_spec(far_plane, near_plane),
                ),
            ),
        ensures
            m.axis_x == (Vector4 {
                x: T::div_spec(T::two_spec(), T::sub_spec(right, left)),
                y: T::zero_spec(),
                z: T::zero_spec(),
                w: T::zero_spec(),
            }),
            m.axis_y == (Vector4 {
                x: T::zero_spec(),
                y: T::div_spec(T::two_spec(), T::sub_spec(top, bottom)),
                z: T::zero_spec(),
                w: T::zero_spec(),
            }),
            m.axis_z == (Vector4 {
                x: T::zero_spec(),
                y: T::zero_spec(),
                z: T::neg_spec(T::div_spec(T::two_spec(), T::sub_spec(far_plane, near_plane))),
                w: T::zero_spec(),
            }),
            m.axis_w == (Vector4 {
                x: T::neg_spec(T::div_spec(T::add_spec(right, left), T::sub_spec(right, left))),
                y: T::neg_spec(T::div_spec(T::add_spec(top, bottom), T::sub_spec(top, bottom))),
                z: T::neg_spec(
                    T::div_spec(
                        T::add_spec(far_plane, near_plane),
                        T::sub_spec(far_plane, near_plane),
                    ),
                ),
                w: T::one_spec(),
            }),
    {
        let two = T::two();

        let c0r0 = T::div(two, T::sub(right, left));
        let c1r1 = T::div(two, T::sub(top, bottom));
        let c2r2 = T::neg(T::div(two, T::sub(far_plane, near_plane)));
        let c3r0 = T::neg(T::div(T::add(right, left), T::sub(right, left)));
        let c3r1 = T::neg(T::div(T::add(top, bottom), T::sub(top, bottom)));
        let c3r2 = T::neg(
            T::div(T::add(far_plane, near_plane), T::sub(far_plane, near_plane)),
        );

        Matrix4::new(
            c0r0,
            T::zero(),
            T::zero(),
            T::zero(),
            T::zero(),
            c1r1,
            T::zero(),
            T::zero(),
            T::zero(),
            T::zero(),
            c2r2,
            T::zero(),
            c3r0,
            c3r1,
            c3r2,
            T::one(),
        )
    }
}

} // verus!

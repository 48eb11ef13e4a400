//! Matrix constructors over the integer scalar: every entry exact.

use nrg_core::Matrix3;
use nrg_core::Matrix4;
use nrg_core::Vector2;
use nrg_core::Vector3;
use nrg_core::Vector4;

#[test]
fn matrix3_new_lays_out_columns() {
    let m: Matrix3<i64> = Matrix3::new(1, 2, 3, 4, 5, 6, 7, 8, 9);
    assert_eq!(m.axis_x, Vector3 { x: 1, y: 2, z: 3 });
    assert_eq!(m.axis_y, Vector3 { x: 4, y: 5, z: 6 });
    assert_eq!(m.axis_z, Vector3 { x: 7, y: 8, z: 9 });
}

#[test]
fn matrix3_from_translation_embeds_offset() {
    let m: Matrix3<i64> = Matrix3::from_translation(Vector2::new(8, -3));
    assert_eq!(m.axis_x, Vector3 { x: 1, y: 0, z: 0 });
    assert_eq!(m.axis_y, Vector3 { x: 0, y: 1, z: 0 });
    assert_eq!(m.axis_z, Vector3 { x: 8, y: -3, z: 1 });
}

#[test]
fn matrix3_scale_constructors_agree() {
    let from_vector: Matrix3<i64> = Matrix3::from_scale_vector(Vector3::new(4, 5, 99));
    let from_pair: Matrix3<i64> = Matrix3::from_scale(4, 5);
    assert_eq!(from_vector, from_pair);
    assert_eq!(from_vector.axis_x.x, 4);
    assert_eq!(from_vector.axis_y.y, 5);
    assert_eq!(from_vector.axis_z.z, 1);
}

#[test]
fn matrix3_transpose_swaps_rows_and_columns() {
    let m: Matrix3<i64> = Matrix3::new(1, 2, 3, 4, 5, 6, 7, 8, 9);
    let t = m.get_transpose();
    assert_eq!(t.axis_x, Vector3 { x: 1, y: 4, z: 7 });
    assert_eq!(t.axis_y, Vector3 { x: 2, y: 5, z: 8 });
    assert_eq!(t.axis_z, Vector3 { x: 3, y: 6, z: 9 });
    assert_eq!(t.get_transpose(), m);
}

#[test]
fn matrix4_new_lays_out_columns() {
    let m: Matrix4<i64> = Matrix4::new(1, 2, 3, 4, 5, 6, 7, 8, 9, 10, 11, 12, 13, 14, 15, 16);
    assert_eq!(m.axis_x, Vector4 { x: 1, y: 2, z: 3, w: 4 });
    assert_eq!(m.axis_w, Vector4 { x: 13, y: 14, z: 15, w: 16 });
}

#[test]
fn matrix4_from_translation_embeds_offset() {
    let m: Matrix4<i64> = Matrix4::from_translation(Vector3::new(7, 8, 9));
    assert_eq!(m.axis_x, Vector4 { x: 1, y: 0, z: 0, w: 0 });
    assert_eq!(m.axis_y, Vector4 { x: 0, y: 1, z: 0, w: 0 });
    assert_eq!(m.axis_z, Vector4 { x: 0, y: 0, z: 1, w: 0 });
    assert_eq!(m.axis_w, Vector4 { x: 7, y: 8, z: 9, w: 1 });
}

#[test]
fn matrix4_scale_constructors_agree() {
    let from_vector: Matrix4<i64> = Matrix4::from_scale_vector(Vector4::new(2, 3, 4, 99));
    let from_triple: Matrix4<i64> = Matrix4::from_scale(2, 3, 4);
    assert_eq!(from_vector, from_triple);
    assert_eq!(from_vector.axis_w.w, 1);
}

#[test]
fn frustum_entries_exact() {
    // left 0, right 2, bottom 0, top 2, near 2, far 6:
    // 2*near = 4; width = height = 2; depth = 4
    let m: Matrix4<i64> = Matrix4::create_frustum(0, 2, 0, 2, 2, 6);
    assert_eq!(m.axis_x, Vector4 { x: 2, y: 0, z: 0, w: 0 });
    assert_eq!(m.axis_y, Vector4 { x: 0, y: 2, z: 0, w: 0 });
    assert_eq!(m.axis_z, Vector4 { x: 1, y: 1, z: -2, w: -1 });
    assert_eq!(m.axis_w, Vector4 { x: 0, y: 0, z: -6, w: 0 });
}

#[test]
fn orthographic_entries_exact() {
    // left 0, right 4, bottom 0, top 2, near 1, far 5
    let m: Matrix4<i64> = Matrix4::create_orthographic(0, 4, 0, 2, 1, 5);
    assert_eq!(m.axis_x, Vector4 { x: 0, y: 0, z: 0, w: 0 });
    assert_eq!(m.axis_y, Vector4 { x: 0, y: 1, z: 0, w: 0 });
    assert_eq!(m.axis_z, Vector4 { x: 0, y: 0, z: 0, w: 0 });
    assert_eq!(m.axis_w, Vector4 { x: -1, y: -1, z: -1, w: 1 });
}

#[test]
fn vector_constructors_keep_components() {
    let v2: Vector2<i64> = Vector2::new(1, 2);
    let v3: Vector3<i64> = Vector3::new(1, 2, 3);
    let v4: Vector4<i64> = Vector4::new(1, 2, 3, 4);
    assert_eq!((v2.x, v2.y), (1, 2));
    assert_eq!((v3.x, v3.y, v3.z), (1, 2, 3));
    assert_eq!((v4.x, v4.y, v4.z, v4.w), (1, 2, 3, 4));
}

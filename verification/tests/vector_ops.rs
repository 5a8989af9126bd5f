// Vector algebra on the fixed-point grid: one raw unit is 1/65536.

use cyclone::vector::Vector3;

const ONE: i64 = 65536;

#[test]
fn new_and_default() {
    let v = Vector3::new(1, 2, 3);
    assert_eq!(v.x, 1);
    assert_eq!(v.y, 2);
    assert_eq!(v.z, 3);
    let z = Vector3::default();
    assert_eq!(z, Vector3::new(0, 0, 0));
}

#[test]
fn invert_flips_signs() {
    let mut v = Vector3::new(ONE, -2 * ONE, 3 * ONE);
    v.invert();
    assert_eq!(v, Vector3::new(-ONE, 2 * ONE, -3 * ONE));
}

#[test]
fn magnitude_of_three_four_zero_is_five() {
    let v = Vector3::new(3 * ONE, 4 * ONE, 0);
    assert_eq!(v.magnitude(), 5 * ONE);
}

#[test]
fn square_magnitude_exact() {
    let v = Vector3::new(3 * ONE, 4 * ONE, 0);
    assert_eq!(v.square_magnitude(), 25 * ONE);
    let mut w = v;
    assert_eq!(w.square_magnitude_mut(), 25 * ONE);
    assert_eq!(w, v);
}

#[test]
fn square_magnitude_equals_magnitude_squared_within_grid() {
    // magnitude^2 <= square_magnitude * SCALE < (magnitude + 1)^2
    let v = Vector3::new(2 * ONE, -2 * ONE, -2 * ONE);
    let m = v.magnitude() as i128;
    let sq = v.square_magnitude() as i128 * ONE as i128;
    assert!(m * m <= sq);
    assert!(sq < (m + 1) * (m + 1));
    // |(2, -2, -2)|^2 == 12
    assert_eq!(v.square_magnitude(), 12 * ONE);
}

#[test]
fn normalize_axis_vector_is_exact_unit() {
    let mut v = Vector3::new(7 * ONE, 0, 0);
    v.normalize();
    assert_eq!(v, Vector3::new(ONE, 0, 0));
    let mut w = Vector3::new(0, -3 * ONE, 0);
    w.normalize();
    assert_eq!(w, Vector3::new(0, -ONE, 0));
}

#[test]
fn normalize_magnitude_is_one_up_to_grid() {
    let mut v = Vector3::new(3 * ONE, 4 * ONE, 0);
    v.normalize();
    // (0.6, 0.8, 0) rounded toward zero
    assert_eq!(v, Vector3::new(39321, 52428, 0));
    let m = v.magnitude();
    assert!(ONE - 1 <= m && m <= ONE);
}

#[test]
fn normalize_is_idempotent_here() {
    let mut v = Vector3::new(3 * ONE, 4 * ONE, 0);
    v.normalize();
    let once = v;
    v.normalize();
    assert_eq!(v, once);
}

#[test]
fn scalar_product_formula_and_symmetry() {
    let a = Vector3::new(ONE, 2 * ONE, 3 * ONE);
    let b = Vector3::new(4 * ONE, 5 * ONE, 6 * ONE);
    // 1*4 + 2*5 + 3*6 == 32
    assert_eq!(a.scalar_product(&b), 32 * ONE);
    assert_eq!(b.scalar_product(&a), 32 * ONE);
}

#[test]
fn vector_product_formula_and_antisymmetry() {
    let a = Vector3::new(ONE, 2 * ONE, 3 * ONE);
    let b = Vector3::new(4 * ONE, 5 * ONE, 6 * ONE);
    let c = a.vector_product(&b);
    assert_eq!(c, Vector3::new(-3 * ONE, 6 * ONE, -3 * ONE));
    let d = b.vector_product(&a);
    assert_eq!(d, Vector3::new(3 * ONE, -6 * ONE, 3 * ONE));
}

#[test]
fn lagrange_identity_on_exact_values() {
    // |a x b|^2 == |a|^2 |b|^2 - (a . b)^2 for a = (1,2,3), b = (4,5,6):
    // 54 == 14 * 77 - 32 * 32
    let a = Vector3::new(ONE, 2 * ONE, 3 * ONE);
    let b = Vector3::new(4 * ONE, 5 * ONE, 6 * ONE);
    let c = a.vector_product(&b);
    assert_eq!(c.square_magnitude(), 54 * ONE);
    let sa = a.square_magnitude() / ONE;
    let sb = b.square_magnitude() / ONE;
    let d = a.scalar_product(&b) / ONE;
    assert_eq!(c.square_magnitude() / ONE, sa * sb - d * d);
}

#[test]
fn component_product_pure_and_in_place() {
    let a = Vector3::new(2 * ONE, 3 * ONE, -4 * ONE);
    let b = Vector3::new(5 * ONE, -6 * ONE, 7 * ONE);
    let c = a.component_product(&b);
    assert_eq!(c, Vector3::new(10 * ONE, -18 * ONE, -28 * ONE));
    let mut d = a;
    d.component_product_update(&b);
    assert_eq!(d, c);
}

#[test]
fn scalar_arithmetic() {
    let a = Vector3::new(2 * ONE, -4 * ONE, 6 * ONE);
    assert_eq!(a.mul_scalar(ONE / 2), Vector3::new(ONE, -2 * ONE, 3 * ONE));
    assert_eq!(a.div_scalar(2 * ONE), Vector3::new(ONE, -2 * ONE, 3 * ONE));
    let b = Vector3::new(ONE, ONE, ONE);
    assert_eq!(a.add_vector(&b), Vector3::new(3 * ONE, -3 * ONE, 7 * ONE));
    assert_eq!(a.sub_vector(&b), Vector3::new(ONE, -5 * ONE, 5 * ONE));
    assert_eq!(a.add_scalar(ONE), Vector3::new(3 * ONE, -3 * ONE, 7 * ONE));
    assert_eq!(a.sub_scalar(ONE), Vector3::new(ONE, -5 * ONE, 5 * ONE));
}

#[test]
fn add_scaled_vector_is_fused_update() {
    let mut a = Vector3::new(ONE, 0, 0);
    let b = Vector3::new(2 * ONE, 4 * ONE, -6 * ONE);
    a.add_scaled_vector(&b, ONE / 2);
    assert_eq!(a, Vector3::new(2 * ONE, 2 * ONE, -3 * ONE));
}

#[test]
fn update_by_vector3_overwrites() {
    let mut a = Vector3::new(1, 2, 3);
    a.update_by_vector3(Vector3::new(7, 8, 9));
    assert_eq!(a, Vector3::new(7, 8, 9));
}

#[test]
fn orthonormal_basis_from_x_and_y() {
    let mut a = Vector3::new(ONE, 0, 0);
    let mut b = Vector3::new(0, ONE, 0);
    let mut c = Vector3::default();
    let r = Vector3::make_orthonormal_basis(&mut a, &mut b, &mut c);
    assert!(r.is_ok());
    assert_eq!(a, Vector3::new(ONE, 0, 0));
    assert_eq!(c, Vector3::new(0, 0, ONE));
    assert_eq!(b, Vector3::new(0, ONE, 0));
    // mutually orthogonal unit vectors
    assert_eq!(a.scalar_product(&b), 0);
    assert_eq!(a.scalar_product(&c), 0);
    assert_eq!(b.scalar_product(&c), 0);
    assert_eq!(a.magnitude(), ONE);
    assert_eq!(b.magnitude(), ONE);
    assert_eq!(c.magnitude(), ONE);
}

#[test]
fn orthonormal_basis_rejects_parallel_vectors() {
    let mut a = Vector3::new(ONE, 0, 0);
    let mut b = Vector3::new(2 * ONE, 0, 0);
    let mut c = Vector3::default();
    let r = Vector3::make_orthonormal_basis(&mut a, &mut b, &mut c);
    assert!(r.is_err());
    // a was normalized, b untouched, c left zero: no corrupted state.
    assert_eq!(a, Vector3::new(ONE, 0, 0));
    assert_eq!(b, Vector3::new(2 * ONE, 0, 0));
    assert_eq!(c, Vector3::new(0, 0, 0));
}

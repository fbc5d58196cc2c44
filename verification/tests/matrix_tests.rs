use lmath::mat2::Mat2;
use lmath::mat3::Mat3;
use lmath::mat4::Mat4;
use lmath::rat::Rat;
use lmath::vectors::{Vec2, Vec3, Vec4};

fn ri(n: i64) -> Rat {
    Rat::from_int(n)
}

fn rq(n: i64, d: i64) -> Rat {
    Rat::new(n, d)
}

fn m2(a: i64, b: i64, c: i64, d: i64) -> Mat2 {
    Mat2::new(ri(a), ri(b), ri(c), ri(d))
}

fn m3(v: [i64; 9]) -> Mat3 {
    Mat3::new(
        ri(v[0]), ri(v[1]), ri(v[2]),
        ri(v[3]), ri(v[4]), ri(v[5]),
        ri(v[6]), ri(v[7]), ri(v[8]),
    )
}

fn m4(v: [i64; 16]) -> Mat4 {
    Mat4::new(
        ri(v[0]), ri(v[1]), ri(v[2]), ri(v[3]),
        ri(v[4]), ri(v[5]), ri(v[6]), ri(v[7]),
        ri(v[8]), ri(v[9]), ri(v[10]), ri(v[11]),
        ri(v[12]), ri(v[13]), ri(v[14]), ri(v[15]),
    )
}

#[test]
fn scalar_arithmetic_is_exact() {
    let a = rq(1, 2);
    let b = rq(1, 3);
    assert!(a.add(b).fuzzy_eq(rq(5, 6)));
    assert!(a.sub(b).fuzzy_eq(rq(1, 6)));
    assert!(a.mul(b).fuzzy_eq(rq(1, 6)));
    assert!(a.div(b).fuzzy_eq(rq(3, 2)));
    assert!(a.neg().fuzzy_eq(rq(-1, 2)));
    assert!(rq(-3, 4).abs().fuzzy_eq(rq(3, 4)));
    assert!(rq(1, 3).lt(rq(1, 2)));
    assert!(!rq(1, 2).lt(rq(1, 3)));
}

#[test]
fn scalar_fuzzy_and_exact_equality_differ() {
    let a = rq(3, 2);
    let b = rq(6, 4);
    assert!(a.fuzzy_eq(b));
    assert!(!a.exact_eq(b));
    assert!(a.exact_eq(a));
}

#[test]
fn scalar_sqrt_of_perfect_square_is_exact() {
    let s = lmath::rat::sqrt_scaled(ri(4));
    assert!(s.fuzzy_eq(ri(2)));
    let s9 = lmath::rat::sqrt_scaled(ri(9));
    assert!(s9.fuzzy_eq(ri(3)));
}

#[test]
fn mat2_identity_is_neutral() {
    let a = m2(1, 2, 3, 4);
    let id = Mat2::identity();
    assert!(a.mul_m(&id).fuzzy_eq(&a));
    assert!(id.mul_m(&a).fuzzy_eq(&a));
}

#[test]
fn mat3_identity_is_neutral() {
    let a = m3([1, 2, 3, 4, 5, 6, 7, 8, 10]);
    let id = Mat3::identity();
    assert!(a.mul_m(&id).fuzzy_eq(&a));
    assert!(id.mul_m(&a).fuzzy_eq(&a));
}

#[test]
fn mat4_identity_is_neutral() {
    let a = m4([1, 2, 3, 4, 5, 6, 7, 8, 9, 10, 11, 12, 13, 14, 15, 17]);
    let id = Mat4::identity();
    assert!(a.mul_m(&id).fuzzy_eq(&a));
    assert!(id.mul_m(&a).fuzzy_eq(&a));
}

#[test]
fn mat2_inverse_multiplies_to_identity() {
    let a = m2(1, 2, 3, 4);
    let inv = a.invert().unwrap();
    let id = Mat2::identity();
    assert!(inv.mul_m(&a).fuzzy_eq(&id));
    assert!(a.mul_m(&inv).fuzzy_eq(&id));
}

#[test]
fn mat3_inverse_multiplies_to_identity() {
    let a = m3([2, 0, 1, 0, 3, 0, 1, 0, 1]);
    let inv = a.invert().unwrap();
    let id = Mat3::identity();
    assert!(inv.mul_m(&a).fuzzy_eq(&id));
    assert!(a.mul_m(&inv).fuzzy_eq(&id));
}

#[test]
fn mat4_inverse_multiplies_to_identity() {
    let a = m4([2, 0, 0, 0, 1, 3, 0, 0, 0, 1, 1, 0, 1, 0, 1, 2]);
    let inv = a.invert().unwrap();
    let id = Mat4::identity();
    assert!(inv.mul_m(&a).fuzzy_eq(&id));
    assert!(a.mul_m(&inv).fuzzy_eq(&id));
}

#[test]
fn transpose_is_involutive() {
    let a2 = m2(1, 2, 3, 4);
    assert!(a2.transpose().transpose().fuzzy_eq(&a2));
    let a3 = m3([1, 2, 3, 4, 5, 6, 7, 8, 9]);
    assert!(a3.transpose().transpose().fuzzy_eq(&a3));
    let a4 = m4([1, 2, 3, 4, 5, 6, 7, 8, 9, 10, 11, 12, 13, 14, 15, 16]);
    assert!(a4.transpose().transpose().fuzzy_eq(&a4));
    assert!(a4.transpose().transpose().exact_eq(&a4));
}

#[test]
fn det_scales_with_dimension_power() {
    let k = ri(3);
    let a2 = m2(1, 2, 3, 4);
    assert!(a2.mul_t(k).det().fuzzy_eq(k.mul(k).mul(a2.det())));
    let a3 = m3([1, 2, 3, 0, 1, 4, 5, 6, 0]);
    assert!(a3.mul_t(k).det().fuzzy_eq(k.mul(k).mul(k).mul(a3.det())));
    let a4 = m4([2, 0, 0, 0, 1, 3, 0, 0, 0, 1, 1, 0, 1, 0, 1, 2]);
    assert!(a4.mul_t(k).det().fuzzy_eq(k.mul(k).mul(k).mul(k).mul(a4.det())));
}

#[test]
fn invertibility_matches_inverse_presence() {
    let good2 = m2(1, 2, 3, 4);
    assert!(good2.is_invertible() && good2.invert().is_some());
    let bad2 = m2(1, 2, 2, 4);
    assert!(!bad2.is_invertible() && bad2.invert().is_none());
    let good3 = m3([2, 0, 1, 0, 3, 0, 1, 0, 1]);
    assert!(good3.is_invertible() && good3.invert().is_some());
    let bad3 = m3([1, 0, 0, 0, 1, 0, 0, 0, 0]);
    assert!(!bad3.is_invertible() && bad3.invert().is_none());
    let zero_row4 = m4([0, 1, 0, 0, 0, 2, 1, 0, 0, 3, 0, 1, 0, 4, 0, 0]);
    assert!(!zero_row4.is_invertible() && zero_row4.invert().is_none());
    let good4 = m4([2, 0, 0, 0, 1, 3, 0, 0, 0, 1, 1, 0, 1, 0, 1, 2]);
    assert!(good4.is_invertible() && good4.invert().is_some());
}

#[test]
fn widening_keeps_the_identity() {
    let wide = Mat2::identity().to_Mat3().to_Mat4();
    assert!(wide.fuzzy_eq(&Mat4::identity()));
}

#[test]
fn mat2_concrete_det_and_inverse() {
    let a = m2(1, 2, 3, 4);
    assert!(a.det().fuzzy_eq(ri(-2)));
    let inv = a.invert().unwrap();
    let expected = Mat2::new(ri(-2), ri(1), rq(3, 2), rq(-1, 2));
    assert!(inv.fuzzy_eq(&expected));
}

#[test]
fn mat3_identity_converts_to_identity_quaternion() {
    let q = Mat3::identity().to_Quat();
    assert!(q.w.fuzzy_eq(ri(1)));
    assert!(q.x.fuzzy_eq(ri(0)));
    assert!(q.y.fuzzy_eq(ri(0)));
    assert!(q.z.fuzzy_eq(ri(0)));
}

#[test]
fn rotation_converts_to_unit_like_quaternion() {
    // Rotation by a quarter turn about the third axis: columns (0,1,0),
    // (-1,0,0), (0,0,1).  The quaternion has x = y = 0 exactly, and the
    // product w * z is exactly 1/2 whatever granularity the root was taken at.
    let rot = m3([0, 1, 0, -1, 0, 0, 0, 0, 1]);
    let q = rot.to_Quat();
    assert!(q.x.fuzzy_eq(ri(0)));
    assert!(q.y.fuzzy_eq(ri(0)));
    assert!(q.w.mul(q.z).fuzzy_eq(rq(1, 2)));
}

#[test]
fn dominant_diagonal_branches_of_quaternion() {
    // Half-turns select the three dominant-diagonal branches in turn; each
    // radicand is exactly 4, so the root is exact, every antisymmetric
    // difference vanishes, and each branch computes (s/2, 0, 0, 0) with
    // s = 2, keeping the family's literal per-branch formulas.
    let rot = m3([1, 0, 0, 0, -1, 0, 0, 0, -1]);
    let q = rot.to_Quat();
    assert!(q.w.fuzzy_eq(ri(1)));
    assert!(q.x.fuzzy_eq(ri(0)));
    assert!(q.y.fuzzy_eq(ri(0)));
    assert!(q.z.fuzzy_eq(ri(0)));
    let rot2 = m3([-1, 0, 0, 0, 1, 0, 0, 0, -1]);
    let q2 = rot2.to_Quat();
    assert!(q2.w.fuzzy_eq(ri(1)));
    assert!(q2.x.fuzzy_eq(ri(0)));
    assert!(q2.y.fuzzy_eq(ri(0)));
    assert!(q2.z.fuzzy_eq(ri(0)));
    let rot3 = m3([-1, 0, 0, 0, -1, 0, 0, 0, 1]);
    let q3 = rot3.to_Quat();
    assert!(q3.w.fuzzy_eq(ri(1)));
    assert!(q3.x.fuzzy_eq(ri(0)));
    assert!(q3.y.fuzzy_eq(ri(0)));
    assert!(q3.z.fuzzy_eq(ri(0)));
}

#[test]
fn gauss_jordan_inverts_scaled_rotation() {
    // scale(2,2,2) composed with a quarter-turn rotation about the third
    // axis, embedded in four dimensions.
    let rot = m3([0, 1, 0, -1, 0, 0, 0, 0, 1]);
    let scale = m4([2, 0, 0, 0, 0, 2, 0, 0, 0, 0, 2, 0, 0, 0, 0, 1]);
    let m = scale.mul_m(&rot.to_Mat4());
    let inv = m.invert().unwrap();
    // Analytic inverse: the inverse rotation, then scale by one half.
    let rot_inv = m3([0, -1, 0, 1, 0, 0, 0, 0, 1]);
    let half_scale = Mat4::new(
        rq(1, 2), ri(0), ri(0), ri(0),
        ri(0), rq(1, 2), ri(0), ri(0),
        ri(0), ri(0), rq(1, 2), ri(0),
        ri(0), ri(0), ri(0), ri(1),
    );
    let expected = rot_inv.to_Mat4().mul_m(&half_scale);
    assert!(inv.fuzzy_eq(&expected));
}

#[test]
fn equal_columns_make_singular_matrices() {
    let a2 = m2(1, 2, 1, 2);
    assert!(a2.det().fuzzy_eq(ri(0)));
    assert!(a2.invert().is_none());
    let a3 = m3([1, 2, 3, 1, 2, 3, 4, 5, 6]);
    assert!(a3.det().fuzzy_eq(ri(0)));
    assert!(a3.invert().is_none());
    let a4 = m4([1, 2, 3, 4, 5, 6, 7, 8, 1, 2, 3, 4, 9, 10, 11, 12]);
    assert!(a4.det().fuzzy_eq(ri(0)));
    assert!(a4.invert().is_none());
}

#[test]
fn shape_queries() {
    let a2 = m2(1, 2, 3, 4);
    assert_eq!(a2.rows(), 2);
    assert_eq!(a2.cols(), 2);
    assert!(a2.is_col_major());
    assert!(a2.is_square());
    let a3 = Mat3::zero();
    assert_eq!(a3.rows(), 3);
    assert_eq!(a3.cols(), 3);
    assert!(a3.is_col_major());
    assert!(a3.is_square());
    let a4 = Mat4::zero();
    assert_eq!(a4.rows(), 4);
    assert_eq!(a4.cols(), 4);
    assert!(a4.is_col_major());
    assert!(a4.is_square());
}

#[test]
fn columns_and_rows_are_duals() {
    let a = m2(1, 2, 3, 4);
    assert!(a.col(0).fuzzy_eq(&Vec2::new(ri(1), ri(2))));
    assert!(a.col(1).fuzzy_eq(&Vec2::new(ri(3), ri(4))));
    assert!(a.row(0).fuzzy_eq(&Vec2::new(ri(1), ri(3))));
    assert!(a.row(1).fuzzy_eq(&Vec2::new(ri(2), ri(4))));
    let b = m3([1, 2, 3, 4, 5, 6, 7, 8, 9]);
    assert!(b.row(1).fuzzy_eq(&Vec3::new(ri(2), ri(5), ri(8))));
    let c = m4([1, 2, 3, 4, 5, 6, 7, 8, 9, 10, 11, 12, 13, 14, 15, 16]);
    assert!(c.row(2).fuzzy_eq(&Vec4::new(ri(3), ri(7), ri(11), ri(15))));
}

#[test]
fn arithmetic_on_matrices() {
    let a = m2(1, 2, 3, 4);
    let b = m2(5, 6, 7, 8);
    assert!(a.add_m(&b).fuzzy_eq(&m2(6, 8, 10, 12)));
    assert!(b.sub_m(&a).fuzzy_eq(&m2(4, 4, 4, 4)));
    assert!(a.neg().fuzzy_eq(&m2(-1, -2, -3, -4)));
    assert!(a.mul_t(ri(2)).fuzzy_eq(&m2(2, 4, 6, 8)));
    assert!(a.mul_m(&b).fuzzy_eq(&m2(23, 34, 31, 46)));
    let v = Vec2::new(ri(1), ri(1));
    assert!(a.mul_v(&v).fuzzy_eq(&Vec2::new(ri(4), ri(6))));
}

#[test]
fn mat3_products_match_hand_expansion() {
    let a = m3([1, 0, 2, 0, 1, 0, 1, 1, 1]);
    let b = m3([1, 1, 0, 0, 1, 0, 0, 0, 1]);
    let ab = a.mul_m(&b);
    let expected = m3([1, 1, 2, 0, 1, 0, 1, 1, 1]);
    assert!(ab.fuzzy_eq(&expected));
    let v = Vec3::new(ri(1), ri(2), ri(3));
    assert!(a.mul_v(&v).fuzzy_eq(&Vec3::new(ri(4), ri(5), ri(5))));
}

#[test]
fn determinants_by_hand() {
    assert!(m2(1, 2, 3, 4).det().fuzzy_eq(ri(-2)));
    assert!(m3([1, 2, 3, 0, 1, 4, 5, 6, 0]).det().fuzzy_eq(ri(1)));
    assert!(m4([2, 0, 0, 0, 0, 3, 0, 0, 0, 0, 4, 0, 0, 0, 0, 5]).det().fuzzy_eq(ri(120)));
    assert!(Mat4::identity().det().fuzzy_eq(ri(1)));
}

#[test]
fn structural_predicates() {
    assert!(Mat2::identity().is_identity());
    assert!(!m2(1, 2, 3, 4).is_identity());
    assert!(m2(1, 5, 5, 2).is_symmetric());
    assert!(!m2(1, 5, 6, 2).is_symmetric());
    assert!(Mat2::from_value(ri(7)).is_diagonal());
    assert!(!m2(1, 1, 0, 1).is_diagonal());
    assert!(m2(1, 2, 3, 4).is_rotated());
    assert!(!Mat2::identity().is_rotated());
    assert!(Mat3::from_value(ri(3)).is_diagonal());
    assert!(m3([1, 4, 5, 4, 2, 6, 5, 6, 3]).is_symmetric());
    assert!(Mat3::identity().is_identity());
    assert!(Mat4::from_value(ri(2)).is_diagonal());
    assert!(m4([1, 0, 0, 5, 0, 1, 0, 0, 0, 0, 1, 0, 5, 0, 0, 1]).is_symmetric());
    assert!(Mat4::identity().is_identity());
    assert!(!Mat4::identity().is_rotated());
}

#[test]
fn constructors_lay_out_columns() {
    let a = Mat2::from_cols(Vec2::new(ri(1), ri(2)), Vec2::new(ri(3), ri(4)));
    assert!(a.exact_eq(&m2(1, 2, 3, 4)));
    let z = Mat3::zero();
    assert!(z.det().fuzzy_eq(ri(0)));
    let d = Mat4::from_value(ri(1));
    assert!(d.fuzzy_eq(&Mat4::identity()));
    let e = Mat3::from_Mat2(&m2(1, 2, 3, 4));
    assert!(e.fuzzy_eq(&m3([1, 2, 0, 3, 4, 0, 0, 0, 1])));
    let f = Mat4::from_Mat3(&m3([1, 2, 3, 4, 5, 6, 7, 8, 9]));
    assert!(f.fuzzy_eq(&m4([1, 2, 3, 0, 4, 5, 6, 0, 7, 8, 9, 0, 0, 0, 0, 1])));
}

#[test]
fn vector_operations() {
    let a = Vec3::new(ri(1), ri(0), ri(0));
    let b = Vec3::new(ri(0), ri(1), ri(0));
    assert!(a.cross(&b).fuzzy_eq(&Vec3::new(ri(0), ri(0), ri(1))));
    assert!(a.dot(&b).fuzzy_eq(ri(0)));
    let c = Vec4::new(ri(1), ri(2), ri(3), ri(4));
    let d = Vec4::new(ri(4), ri(3), ri(2), ri(1));
    assert!(c.dot(&d).fuzzy_eq(ri(20)));
    assert!(c.add_v(&d).fuzzy_eq(&Vec4::new(ri(5), ri(5), ri(5), ri(5))));
    assert!(c.sub_v(&d).fuzzy_eq(&Vec4::new(ri(-3), ri(-1), ri(1), ri(3))));
    assert!(c.mul_t(ri(2)).fuzzy_eq(&Vec4::new(ri(2), ri(4), ri(6), ri(8))));
    let e = Vec3::new(ri(2), ri(4), ri(6));
    let h = e.div_t(ri(2));
    assert!(h.fuzzy_eq(&Vec3::new(ri(1), ri(2), ri(3))));
}

#[test]
fn fractional_matrix_inverse() {
    // A matrix with fractional entries still inverts exactly.
    let a = Mat2::new(rq(1, 2), ri(0), ri(0), rq(1, 4));
    let inv = a.invert().unwrap();
    assert!(inv.fuzzy_eq(&Mat2::new(ri(2), ri(0), ri(0), ri(4))));
}

#[test]
fn checked_scalar_operations_refuse_overflow() {
    let big = Rat::new(lmath::rat::RAT_LIMIT, 1);
    assert!(big.checked_mul(big).is_none());
    assert!(big.checked_add(big).is_none());
    assert!(rq(1, 2).checked_mul(rq(1, 3)).unwrap().fuzzy_eq(rq(1, 6)));
    assert!(rq(1, 2).checked_div(rq(-1, 3)).unwrap().fuzzy_eq(rq(-3, 2)));
}

#[test]
fn mat4_vector_product() {
    let a = m4([1, 0, 0, 0, 0, 2, 0, 0, 0, 0, 3, 0, 1, 1, 1, 1]);
    let v = Vec4::new(ri(1), ri(1), ri(1), ri(1));
    assert!(a.mul_v(&v).fuzzy_eq(&Vec4::new(ri(2), ri(3), ri(4), ri(1))));
}

#[test]
fn matrix_exact_and_fuzzy_equality_differ() {
    let a = Mat2::new(rq(1, 2), ri(0), ri(0), ri(1));
    let b = Mat2::new(rq(2, 4), ri(0), ri(0), ri(1));
    assert!(a.fuzzy_eq(&b));
    assert!(!a.exact_eq(&b));
    assert!(a.exact_eq(&a));
}

#[test]
fn quaternion_of_fractional_matrix() {
    // Entries with denominator 2; the trace is 3/2, so the first branch is
    // taken and the returned scalars bracket the true components: w stays
    // strictly positive and the off-axis components are exactly zero.
    let m = Mat3::new(
        rq(1, 2), ri(0), ri(0),
        ri(0), rq(1, 2), ri(0),
        ri(0), ri(0), rq(1, 2),
    );
    let q = m.to_Quat();
    assert!(Rat::zero().lt(q.w));
    assert!(q.x.fuzzy_eq(ri(0)));
    assert!(q.y.fuzzy_eq(ri(0)));
    assert!(q.z.fuzzy_eq(ri(0)));
}

#[test]
fn general_equality_is_tolerance_equality() {
    let a = Mat2::new(rq(1, 2), ri(0), ri(0), ri(1));
    let b = Mat2::new(rq(2, 4), ri(0), ri(0), ri(1));
    assert!(a.eq(&b));
    assert!(!a.ne(&b));
    let c = m3([1, 0, 0, 0, 1, 0, 0, 0, 2]);
    assert!(c.ne(&Mat3::identity()));
    assert!(Mat4::identity().eq(&Mat4::from_value(ri(1))));
}

//! 2×2 column-major matrices.

use vstd::prelude::*;
use crate::rat::{
    Q, Rat, lemma_mul_pos, lemma_qmul_sub_distrib, q_div, q_div_ok, q_eq, q_in_range, q_int,
    q_mul, q_neg, q_sub, q_wf,
};
use crate::vectors::{
    QVec2, Vec2, lemma_qdot2_div_target_left, lemma_qdot2_div_target_right, qdot2, qdot2_ok,
    qv2_add, qv2_eq, qv2_in_range, qv2_neg, qv2_scale, qv2_sub, qv2_wf,
};

verus! {

/// Model of a 2×2 matrix: two model column vectors.
pub struct QMat2 {
    pub x: QVec2,
    pub y: QVec2,
}

pub open spec fn qm2_wf(a: QMat2) -> bool {
    qv2_wf(a.x) && qv2_wf(a.y)
}

/// Columnwise (hence entrywise) value equality.
pub open spec fn qm2_eq(a: QMat2, b: QMat2) -> bool {
    qv2_eq(a.x, b.x) && qv2_eq(a.y, b.y)
}

pub open spec fn qm2_id() -> QMat2 {
    QMat2 {
        x: QVec2 { x: q_int(1), y: q_int(0) },
        y: QVec2 { x: q_int(0), y: q_int(1) },
    }
}

pub open spec fn qm2_zero() -> QMat2 {
    QMat2 {
        x: QVec2 { x: q_int(0), y: q_int(0) },
        y: QVec2 { x: q_int(0), y: q_int(0) },
    }
}

/// Row `0` of the matrix, assembled from component 0 of every column.
pub open spec fn qm2_row0(a: QMat2) -> QVec2 {
    QVec2 { x: a.x.x, y: a.y.x }
}

pub open spec fn qm2_row1(a: QMat2) -> QVec2 {
    QVec2 { x: a.x.y, y: a.y.y }
}

pub open spec fn qm2_add(a: QMat2, b: QMat2) -> QMat2 {
    QMat2 { x: qv2_add(a.x, b.x), y: qv2_add(a.y, b.y) }
}

pub open spec fn qm2_sub(a: QMat2, b: QMat2) -> QMat2 {
    QMat2 { x: qv2_sub(a.x, b.x), y: qv2_sub(a.y, b.y) }
}

pub open spec fn qm2_neg(a: QMat2) -> QMat2 {
    QMat2 { x: qv2_neg(a.x), y: qv2_neg(a.y) }
}

pub open spec fn qm2_scale(a: QMat2, k: Q) -> QMat2 {
    QMat2 { x: qv2_scale(a.x, k), y: qv2_scale(a.y, k) }
}

/// Matrix product: entry in column `i`, row `j` is `row j of a · column i of b`.
pub open spec fn qm2_mul(a: QMat2, b: QMat2) -> QMat2 {
    QMat2 {
        x: QVec2 { x: qdot2(qm2_row0(a), b.x), y: qdot2(qm2_row1(a), b.x) },
        y: QVec2 { x: qdot2(qm2_row0(a), b.y), y: qdot2(qm2_row1(a), b.y) },
    }
}

/// Matrix-vector product.
pub open spec fn qm2_mul_v(a: QMat2, v: QVec2) -> QVec2 {
    QVec2 { x: qdot2(qm2_row0(a), v), y: qdot2(qm2_row1(a), v) }
}

/// Two-term determinant expansion.
pub open spec fn qm2_det(a: QMat2) -> Q {
    q_sub(q_mul(a.x.x, a.y.y), q_mul(a.y.x, a.x.y))
}

pub open spec fn qm2_transpose(a: QMat2) -> QMat2 {
    QMat2 {
        x: QVec2 { x: a.x.x, y: a.y.x },
        y: QVec2 { x: a.x.y, y: a.y.y },
    }
}

/// Closed adjugate-over-determinant inverse.
pub open spec fn qm2_inv(a: QMat2) -> QMat2 {
    let d = qm2_det(a);
    QMat2 {
        x: QVec2 { x: q_div(a.y.y, d), y: q_div(q_neg(a.x.y), d) },
        y: QVec2 { x: q_div(q_neg(a.y.x), d), y: q_div(a.x.x, d) },
    }
}

pub open spec fn qm2_mul_ok(a: QMat2, b: QMat2) -> bool {
    &&& qdot2_ok(qm2_row0(a), b.x)
    &&& qdot2_ok(qm2_row1(a), b.x)
    &&& qdot2_ok(qm2_row0(a), b.y)
    &&& qdot2_ok(qm2_row1(a), b.y)
}

pub open spec fn qm2_det_ok(a: QMat2) -> bool {
    &&& q_in_range(q_mul(a.x.x, a.y.y))
    &&& q_in_range(q_mul(a.y.x, a.x.y))
    &&& q_in_range(qm2_det(a))
}

pub open spec fn qm2_inv_ok(a: QMat2) -> bool {
    &&& q_div_ok(a.y.y, qm2_det(a))
    &&& q_div_ok(q_neg(a.x.y), qm2_det(a))
    &&& q_div_ok(q_neg(a.y.x), qm2_det(a))
    &&& q_div_ok(a.x.x, qm2_det(a))
}

/// A 2×2 column-major matrix: columns `x` and `y`.
#[derive(Clone, Copy)]
pub struct Mat2 {
    pub x: Vec2,
    pub y: Vec2,
}

impl View for Mat2 {
    type V = QMat2;

    open spec fn view(&self) -> QMat2 {
        QMat2 { x: self.x@, y: self.y@ }
    }
}

impl Mat2 {
    pub open spec fn wf(self) -> bool {
        self.x.wf() && self.y.wf()
    }

    /// Builds the matrix from components given column by column.
    pub fn new(c0r0: Rat, c0r1: Rat, c1r0: Rat, c1r1: Rat) -> (r: Mat2)
        requires
            c0r0.wf(),
            c0r1.wf(),
            c1r0.wf(),
            c1r1.wf(),
        ensures
            r.wf(),
            r@ == (QMat2 {
                x: QVec2 { x: c0r0@, y: c0r1@ },
                y: QVec2 { x: c1r0@, y: c1r1@ },
            }),
    {
        Mat2 { x: Vec2::new(c0r0, c0r1), y: Vec2::new(c1r0, c1r1) }
    }

    pub fn from_cols(c0: Vec2, c1: Vec2) -> (r: Mat2)
        requires
            c0.wf(),
            c1.wf(),
        ensures
            r.wf(),
            r@ == (QMat2 { x: c0@, y: c1@ }),
    {
        Mat2 { x: c0, y: c1 }
    }

    /// Diagonal fill from one scalar.
    pub fn from_value(value: Rat) -> (r: Mat2)
        requires
            value.wf(),
        ensures
            r.wf(),
            r@ == (QMat2 {
                x: QVec2 { x: value@, y: q_int(0) },
                y: QVec2 { x: q_int(0), y: value@ },
            }),
    {
        let zero = Rat::zero();
        Mat2::new(value, zero, zero, value)
    }

    pub fn zero() -> (r: Mat2)
        ensures
            r.wf(),
            r@ == qm2_zero(),
    {
        let zero = Rat::zero();
        Mat2::new(zero, zero, zero, zero)
    }

    pub fn identity() -> (r: Mat2)
        ensures
            r.wf(),
            r@ == qm2_id(),
    {
        let zero = Rat::zero();
        let one = Rat::one();
        Mat2::new(one, zero, zero, one)
    }

    pub fn rows(&self) -> (r: usize)
        ensures
            r == 2,
    {
        2
    }

    pub fn cols(&self) -> (r: usize)
        ensures
            r == 2,
    {
        2
    }

    pub fn is_col_major(&self) -> (r: bool)
        ensures
            r,
    {
        true
    }

    pub fn is_square(&self) -> (r: bool)
        ensures
            r,
    {
        true
    }

    pub fn col(&self, i: usize) -> (r: Vec2)
        requires
            i < 2,
        ensures
            r@ == if i == 0 { self@.x } else { self@.y },
    {
        if i == 0 {
            self.x
        } else {
            self.y
        }
    }

    pub fn row(&self, i: usize) -> (r: Vec2)
        requires
            i < 2,
        ensures
            r@ == if i == 0 { qm2_row0(self@) } else { qm2_row1(self@) },
    {
        if i == 0 {
            Vec2 { x: self.x.x, y: self.y.x }
        } else {
            Vec2 { x: self.x.y, y: self.y.y }
        }
    }

    pub fn neg(&self) -> (r: Mat2)
        requires
            self.wf(),
        ensures
            r.wf(),
            r@ == qm2_neg(self@),
    {
        Mat2 { x: self.x.neg(), y: self.y.neg() }
    }

    pub fn mul_t(&self, value: Rat) -> (r: Mat2)
        requires
            self.wf(),
            value.wf(),
            qv2_in_range(qv2_scale(self@.x, value@)),
            qv2_in_range(qv2_scale(self@.y, value@)),
        ensures
            r.wf(),
            r@ == qm2_scale(self@, value@),
    {
        Mat2 { x: self.x.mul_t(value), y: self.y.mul_t(value) }
    }

    pub fn mul_v(&self, other: &Vec2) -> (r: Vec2)
        requires
            self.wf(),
            other.wf(),
            qdot2_ok(qm2_row0(self@), other@),
            qdot2_ok(qm2_row1(self@), other@),
        ensures
            r.wf(),
            r@ == qm2_mul_v(self@, other@),
    {
        let r0 = self.row(0);
        let r1 = self.row(1);
        Vec2 { x: r0.dot(other), y: r1.dot(other) }
    }

    pub fn add_m(&self, other: &Mat2) -> (r: Mat2)
        requires
            self.wf(),
            other.wf(),
            qv2_in_range(qv2_add(self@.x, other@.x)),
            qv2_in_range(qv2_add(self@.y, other@.y)),
        ensures
            r.wf(),
            r@ == qm2_add(self@, other@),
    {
        Mat2 { x: self.x.add_v(&other.x), y: self.y.add_v(&other.y) }
    }

    pub fn sub_m(&self, other: &Mat2) -> (r: Mat2)
        requires
            self.wf(),
            other.wf(),
            qv2_in_range(qv2_sub(self@.x, other@.x)),
            qv2_in_range(qv2_sub(self@.y, other@.y)),
        ensures
            r.wf(),
            r@ == qm2_sub(self@, other@),
    {
        Mat2 { x: self.x.sub_v(&other.x), y: self.y.sub_v(&other.y) }
    }

    pub fn mul_m(&self, other: &Mat2) -> (r: Mat2)
        requires
            self.wf(),
            other.wf(),
            qm2_mul_ok(self@, other@),
        ensures
            r.wf(),
            r@ == qm2_mul(self@, other@),
    {
        let r0 = self.row(0);
        let r1 = self.row(1);
        Mat2::new(
            r0.dot(&other.col(0)),
            r1.dot(&other.col(0)),
            r0.dot(&other.col(1)),
            r1.dot(&other.col(1)),
        )
    }

    pub fn det(&self) -> (r: Rat)
        requires
            self.wf(),
            qm2_det_ok(self@),
        ensures
            r.wf(),
            r@ == qm2_det(self@),
    {
        self.x.x.mul(self.y.y).sub(self.y.x.mul(self.x.y))
    }

    /// The inverse, absent exactly when the determinant is zero.
    pub fn invert(&self) -> (r: Option<Mat2>)
        requires
            self.wf(),
            qm2_det_ok(self@),
            q_eq(qm2_det(self@), q_int(0)) || qm2_inv_ok(self@),
        ensures
            match r {
                Option::None => q_eq(qm2_det(self@), q_int(0)),
                Option::Some(v) => {
                    &&& !q_eq(qm2_det(self@), q_int(0))
                    &&& v.wf()
                    &&& qm2_eq(v@, qm2_inv(self@))
                },
            },
    {
        let d = self.det();
        if d.is_zero() {
            None
        } else {
            Some(
                Mat2::new(
                    self.y.y.div(d),
                    self.x.y.neg().div(d),
                    self.y.x.neg().div(d),
                    self.x.x.div(d),
                ),
            )
        }
    }

    pub fn transpose(&self) -> (r: Mat2)
        requires
            self.wf(),
        ensures
            r.wf(),
            r@ == qm2_transpose(self@),
    {
        Mat2::new(self.x.x, self.y.x, self.x.y, self.y.y)
    }

    pub fn is_identity(&self) -> (r: bool)
        requires
            self.wf(),
        ensures
            r == qm2_eq(self@, qm2_id()),
    {
        self.fuzzy_eq(&Mat2::identity())
    }

    pub fn is_symmetric(&self) -> (r: bool)
        requires
            self.wf(),
        ensures
            r == (q_eq(self@.x.y, self@.y.x) && q_eq(self@.y.x, self@.x.y)),
    {
        self.x.y.fuzzy_eq(self.y.x) && self.y.x.fuzzy_eq(self.x.y)
    }

    pub fn is_diagonal(&self) -> (r: bool)
        requires
            self.wf(),
        ensures
            r == (q_eq(self@.x.y, q_int(0)) && q_eq(self@.y.x, q_int(0))),
    {
        let zero = Rat::zero();
        self.x.y.fuzzy_eq(zero) && self.y.x.fuzzy_eq(zero)
    }

    /// Whether the matrix differs from the identity; a non-identity matrix
    /// need not be a rotation, the name keeps the family's historic meaning.
    pub fn is_rotated(&self) -> (r: bool)
        requires
            self.wf(),
        ensures
            r == !qm2_eq(self@, qm2_id()),
    {
        !self.fuzzy_eq(&Mat2::identity())
    }

    pub fn is_invertible(&self) -> (r: bool)
        requires
            self.wf(),
            qm2_det_ok(self@),
        ensures
            r == !q_eq(qm2_det(self@), q_int(0)),
    {
        !self.det().is_zero()
    }

    /// The general equality of the family: tolerance equality.
    pub fn eq(&self, other: &Mat2) -> (r: bool)
        requires
            self.wf(),
            other.wf(),
        ensures
            r == qm2_eq(self@, other@),
    {
        self.fuzzy_eq(other)
    }

    pub fn ne(&self, other: &Mat2) -> (r: bool)
        requires
            self.wf(),
            other.wf(),
        ensures
            r == !qm2_eq(self@, other@),
    {
        !self.eq(other)
    }

    /// Tolerance equality, delegated columnwise to the scalar notion.
    pub fn fuzzy_eq(&self, other: &Mat2) -> (r: bool)
        requires
            self.wf(),
            other.wf(),
        ensures
            r == qm2_eq(self@, other@),
    {
        self.x.fuzzy_eq(&other.x) && self.y.fuzzy_eq(&other.y)
    }

    /// Structural equality of the stored representation.
    pub fn exact_eq(&self, other: &Mat2) -> (r: bool)
        ensures
            r == (self@ == other@),
    {
        self.x.exact_eq(&other.x) && self.y.exact_eq(&other.y)
    }

    /// Widens into the top-left block of the 3×3 identity.
    #[allow(non_snake_case)]
    pub fn to_Mat3(&self) -> (r: crate::mat3::Mat3)
        requires
            self.wf(),
        ensures
            r.wf(),
            r@ == crate::mat3::qm3_from_mat2(self@),
    {
        crate::mat3::Mat3::from_Mat2(self)
    }

    /// Widens into the top-left block of the 4×4 identity.
    #[allow(non_snake_case)]
    pub fn to_Mat4(&self) -> (r: crate::mat4::Mat4)
        requires
            self.wf(),
        ensures
            r.wf(),
            r@ == crate::mat4::qm4_from_mat2(self@),
    {
        crate::mat4::Mat4::from_Mat2(self)
    }
}

/// The identity is neutral for the matrix product, on both sides.
pub proof fn lemma_mat2_mul_identity(a: QMat2)
    requires
        qm2_wf(a),
    ensures
        qm2_eq(qm2_mul(a, qm2_id()), a),
        qm2_eq(qm2_mul(qm2_id(), a), a),
{
    assert(qm2_eq(qm2_mul(a, qm2_id()), a)) by (nonlinear_arith)
        requires
            qm2_wf(a),
    ;
    assert(qm2_eq(qm2_mul(qm2_id(), a), a)) by (nonlinear_arith)
        requires
            qm2_wf(a),
    ;
}

/// Transposing twice gives the matrix back, structurally.
pub proof fn lemma_mat2_transpose_involutive(a: QMat2)
    ensures
        qm2_transpose(qm2_transpose(a)) == a,
{
    assert(qm2_transpose(qm2_transpose(a)) == a);
}

/// Scaling a 2×2 matrix scales its determinant by the square of the factor.
pub proof fn lemma_mat2_det_scale(a: QMat2, k: Q)
    requires
        qm2_wf(a),
        q_wf(k),
    ensures
        q_eq(qm2_det(qm2_scale(a, k)), q_mul(q_mul(k, k), qm2_det(a))),
{
    let kk = q_mul(k, k);
    let p1 = q_mul(a.x.x, a.y.y);
    let p2 = q_mul(a.y.x, a.x.y);
    assert((a.x.x.n * k.n) * (a.y.y.n * k.n) == (k.n * k.n) * (a.x.x.n * a.y.y.n))
        by (nonlinear_arith);
    assert((a.x.x.d * k.d) * (a.y.y.d * k.d) == (k.d * k.d) * (a.x.x.d * a.y.y.d))
        by (nonlinear_arith);
    assert((a.y.x.n * k.n) * (a.x.y.n * k.n) == (k.n * k.n) * (a.y.x.n * a.x.y.n))
        by (nonlinear_arith);
    assert((a.y.x.d * k.d) * (a.x.y.d * k.d) == (k.d * k.d) * (a.y.x.d * a.x.y.d))
        by (nonlinear_arith);
    assert(qm2_det(qm2_scale(a, k)) == q_sub(q_mul(kk, p1), q_mul(kk, p2)));
    lemma_qmul_sub_distrib(kk, p1, p2);
}

/// The closed-form inverse is a two-sided inverse whenever the determinant
/// is nonzero.
pub proof fn lemma_mat2_invert(a: QMat2)
    requires
        qm2_wf(a),
        !q_eq(qm2_det(a), q_int(0)),
    ensures
        qm2_eq(qm2_mul(qm2_inv(a), a), qm2_id()),
        qm2_eq(qm2_mul(a, qm2_inv(a)), qm2_id()),
{
    let d = qm2_det(a);
    let b = qm2_inv(a);
    let one = q_int(1);
    let zero = q_int(0);
    lemma_mul_pos(a.x.x.d, a.y.y.d);
    lemma_mul_pos(a.y.x.d, a.x.y.d);
    lemma_mul_pos(a.x.x.d * a.y.y.d, a.y.x.d * a.x.y.d);
    assert(d.d >= 1);
    assert(d.n != 0);
    assert(qm2_row0(b) == (QVec2 { x: q_div(a.y.y, d), y: q_div(q_neg(a.y.x), d) }));
    assert(qm2_row1(b) == (QVec2 { x: q_div(q_neg(a.x.y), d), y: q_div(a.x.x, d) }));
    let n00 = qdot2(QVec2 { x: a.y.y, y: q_neg(a.y.x) }, a.x);
    assert(n00.n == d.n && n00.d == d.d) by (nonlinear_arith)
        requires
            n00 == qdot2(QVec2 { x: a.y.y, y: q_neg(a.y.x) }, a.x),
            d == qm2_det(a),
    ;
    assert(q_eq(n00, q_mul(one, d))) by (nonlinear_arith)
        requires
            n00.n == d.n,
            n00.d == d.d,
            one == q_int(1),
    ;
    lemma_qdot2_div_target_left(a.y.y, q_neg(a.y.x), d, a.x, one);
    let n01 = qdot2(QVec2 { x: q_neg(a.x.y), y: a.x.x }, a.x);
    assert(n01.n == 0) by (nonlinear_arith)
        requires
            n01 == qdot2(QVec2 { x: q_neg(a.x.y), y: a.x.x }, a.x),
    ;
    assert(q_eq(n01, q_mul(zero, d))) by (nonlinear_arith)
        requires
            n01.n == 0,
            zero == q_int(0),
    ;
    lemma_qdot2_div_target_left(q_neg(a.x.y), a.x.x, d, a.x, zero);
    let n10 = qdot2(QVec2 { x: a.y.y, y: q_neg(a.y.x) }, a.y);
    assert(n10.n == 0) by (nonlinear_arith)
        requires
            n10 == qdot2(QVec2 { x: a.y.y, y: q_neg(a.y.x) }, a.y),
    ;
    assert(q_eq(n10, q_mul(zero, d))) by (nonlinear_arith)
        requires
            n10.n == 0,
            zero == q_int(0),
    ;
    lemma_qdot2_div_target_left(a.y.y, q_neg(a.y.x), d, a.y, zero);
    let n11 = qdot2(QVec2 { x: q_neg(a.x.y), y: a.x.x }, a.y);
    assert(n11.n == d.n && n11.d == d.d) by (nonlinear_arith)
        requires
            n11 == qdot2(QVec2 { x: q_neg(a.x.y), y: a.x.x }, a.y),
            d == qm2_det(a),
    ;
    assert(q_eq(n11, q_mul(one, d))) by (nonlinear_arith)
        requires
            n11.n == d.n,
            n11.d == d.d,
            one == q_int(1),
    ;
    lemma_qdot2_div_target_left(q_neg(a.x.y), a.x.x, d, a.y, one);
    assert(b.x == (QVec2 { x: q_div(a.y.y, d), y: q_div(q_neg(a.x.y), d) }));
    assert(b.y == (QVec2 { x: q_div(q_neg(a.y.x), d), y: q_div(a.x.x, d) }));
    let m00 = qdot2(qm2_row0(a), QVec2 { x: a.y.y, y: q_neg(a.x.y) });
    assert(m00.n == d.n && m00.d == d.d) by (nonlinear_arith)
        requires
            m00 == qdot2(qm2_row0(a), QVec2 { x: a.y.y, y: q_neg(a.x.y) }),
            d == qm2_det(a),
    ;
    assert(q_eq(m00, q_mul(one, d))) by (nonlinear_arith)
        requires
            m00.n == d.n,
            m00.d == d.d,
            one == q_int(1),
    ;
    lemma_qdot2_div_target_right(a.y.y, q_neg(a.x.y), d, qm2_row0(a), one);
    let m01 = qdot2(qm2_row1(a), QVec2 { x: a.y.y, y: q_neg(a.x.y) });
    assert(m01.n == 0) by (nonlinear_arith)
        requires
            m01 == qdot2(qm2_row1(a), QVec2 { x: a.y.y, y: q_neg(a.x.y) }),
    ;
    assert(q_eq(m01, q_mul(zero, d))) by (nonlinear_arith)
        requires
            m01.n == 0,
            zero == q_int(0),
    ;
    lemma_qdot2_div_target_right(a.y.y, q_neg(a.x.y), d, qm2_row1(a), zero);
    let m10 = qdot2(qm2_row0(a), QVec2 { x: q_neg(a.y.x), y: a.x.x });
    assert(m10.n == 0) by (nonlinear_arith)
        requires
            m10 == qdot2(qm2_row0(a), QVec2 { x: q_neg(a.y.x), y: a.x.x }),
    ;
    assert(q_eq(m10, q_mul(zero, d))) by (nonlinear_arith)
        requires
            m10.n == 0,
            zero == q_int(0),
    ;
    lemma_qdot2_div_target_right(q_neg(a.y.x), a.x.x, d, qm2_row0(a), zero);
    let m11 = qdot2(qm2_row1(a), QVec2 { x: q_neg(a.y.x), y: a.x.x });
    assert(m11.n == d.n && m11.d == d.d) by (nonlinear_arith)
        requires
            m11 == qdot2(qm2_row1(a), QVec2 { x: q_neg(a.y.x), y: a.x.x }),
            d == qm2_det(a),
    ;
    assert(q_eq(m11, q_mul(one, d))) by (nonlinear_arith)
        requires
            m11.n == d.n,
            m11.d == d.d,
            one == q_int(1),
    ;
    lemma_qdot2_div_target_right(q_neg(a.y.x), a.x.x, d, qm2_row1(a), one);
}

/// A 2×2 matrix whose columns are equal in value has determinant zero.
pub proof fn lemma_mat2_equal_cols_det_zero(a: QMat2)
    requires
        qm2_wf(a),
        qv2_eq(a.x, a.y),
    ensures
        q_eq(qm2_det(a), q_int(0)),
{
    let e1: int = a.x.x.n * a.y.x.d;
    let f1: int = a.y.x.n * a.x.x.d;
    let e2: int = a.x.y.n * a.y.y.d;
    let f2: int = a.y.y.n * a.x.y.d;
    assert(e1 == f1);
    assert(e2 == f2);
    assert((a.x.x.n * a.y.y.n) * (a.y.x.d * a.x.y.d) == e1 * f2) by (nonlinear_arith)
        requires
            e1 == a.x.x.n * a.y.x.d,
            f2 == a.y.y.n * a.x.y.d,
    ;
    assert((a.y.x.n * a.x.y.n) * (a.x.x.d * a.y.y.d) == f1 * e2) by (nonlinear_arith)
        requires
            f1 == a.y.x.n * a.x.x.d,
            e2 == a.x.y.n * a.y.y.d,
    ;
    assert(e1 * f2 == f1 * e2);
    assert(qm2_det(a).n == 0);
    assert(q_eq(qm2_det(a), q_int(0))) by (nonlinear_arith)
        requires
            qm2_det(a).n == 0,
    ;
}

} // verus!

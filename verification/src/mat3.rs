//! 3×3 column-major matrices, and their conversion into a quaternion.

use vstd::prelude::*;
use crate::rat::{
    Q, Rat, lemma_mul_bound, lemma_mul_pos, q_add, q_div_ok, q_eq, q_in_range, q_int,
    q_le, q_lt, q_mul, q_sub, sqrt_bracket,
};
use crate::vectors::{
    QVec3, Vec3, qcross, qcross_ok, qdot3, qdot3_ok, qv3_add, qv3_div, qv3_eq, qv3_in_range,
    qv3_neg, qv3_scale, qv3_sub, qv3_wf,
};
use crate::mat2::QMat2;
use crate::quat::{QQuat, Quat};

verus! {

/// Model of a 3×3 matrix: three model column vectors.
pub struct QMat3 {
    pub x: QVec3,
    pub y: QVec3,
    pub z: QVec3,
}

pub open spec fn qm3_wf(a: QMat3) -> bool {
    qv3_wf(a.x) && qv3_wf(a.y) && qv3_wf(a.z)
}

/// Columnwise (hence entrywise) value equality.
pub open spec fn qm3_eq(a: QMat3, b: QMat3) -> bool {
    qv3_eq(a.x, b.x) && qv3_eq(a.y, b.y) && qv3_eq(a.z, b.z)
}

pub open spec fn qm3_id() -> QMat3 {
    QMat3 {
        x: QVec3 { x: q_int(1), y: q_int(0), z: q_int(0) },
        y: QVec3 { x: q_int(0), y: q_int(1), z: q_int(0) },
        z: QVec3 { x: q_int(0), y: q_int(0), z: q_int(1) },
    }
}

pub open spec fn qm3_zero() -> QMat3 {
    QMat3 {
        x: QVec3 { x: q_int(0), y: q_int(0), z: q_int(0) },
        y: QVec3 { x: q_int(0), y: q_int(0), z: q_int(0) },
        z: QVec3 { x: q_int(0), y: q_int(0), z: q_int(0) },
    }
}

pub open spec fn qm3_row0(a: QMat3) -> QVec3 {
    QVec3 { x: a.x.x, y: a.y.x, z: a.z.x }
}

pub open spec fn qm3_row1(a: QMat3) -> QVec3 {
    QVec3 { x: a.x.y, y: a.y.y, z: a.z.y }
}

pub open spec fn qm3_row2(a: QMat3) -> QVec3 {
    QVec3 { x: a.x.z, y: a.y.z, z: a.z.z }
}

pub open spec fn qm3_add(a: QMat3, b: QMat3) -> QMat3 {
    QMat3 { x: qv3_add(a.x, b.x), y: qv3_add(a.y, b.y), z: qv3_add(a.z, b.z) }
}

pub open spec fn qm3_sub(a: QMat3, b: QMat3) -> QMat3 {
    QMat3 { x: qv3_sub(a.x, b.x), y: qv3_sub(a.y, b.y), z: qv3_sub(a.z, b.z) }
}

pub open spec fn qm3_neg(a: QMat3) -> QMat3 {
    QMat3 { x: qv3_neg(a.x), y: qv3_neg(a.y), z: qv3_neg(a.z) }
}

pub open spec fn qm3_scale(a: QMat3, k: Q) -> QMat3 {
    QMat3 { x: qv3_scale(a.x, k), y: qv3_scale(a.y, k), z: qv3_scale(a.z, k) }
}

/// Matrix product: entry in column `i`, row `j` is `row j of a · column i of b`.
pub open spec fn qm3_mul(a: QMat3, b: QMat3) -> QMat3 {
    QMat3 {
        x: QVec3 {
            x: qdot3(qm3_row0(a), b.x),
            y: qdot3(qm3_row1(a), b.x),
            z: qdot3(qm3_row2(a), b.x),
        },
        y: QVec3 {
            x: qdot3(qm3_row0(a), b.y),
            y: qdot3(qm3_row1(a), b.y),
            z: qdot3(qm3_row2(a), b.y),
        },
        z: QVec3 {
            x: qdot3(qm3_row0(a), b.z),
            y: qdot3(qm3_row1(a), b.z),
            z: qdot3(qm3_row2(a), b.z),
        },
    }
}

pub open spec fn qm3_mul_v(a: QMat3, v: QVec3) -> QVec3 {
    QVec3 { x: qdot3(qm3_row0(a), v), y: qdot3(qm3_row1(a), v), z: qdot3(qm3_row2(a), v) }
}

/// Scalar triple product of the columns.
pub open spec fn qm3_det(a: QMat3) -> Q {
    qdot3(a.x, qcross(a.y, a.z))
}

pub open spec fn qm3_transpose(a: QMat3) -> QMat3 {
    QMat3 { x: qm3_row0(a), y: qm3_row1(a), z: qm3_row2(a) }
}

/// Adjugate-over-determinant inverse: pairwise cross products of the
/// columns, divided by the determinant, transposed.
pub open spec fn qm3_inv(a: QMat3) -> QMat3 {
    let d = qm3_det(a);
    qm3_transpose(
        QMat3 {
            x: qv3_div(qcross(a.y, a.z), d),
            y: qv3_div(qcross(a.z, a.x), d),
            z: qv3_div(qcross(a.x, a.y), d),
        },
    )
}

/// The 2×2 matrix embedded in the top-left block of the 3×3 identity.
pub open spec fn qm3_from_mat2(m: QMat2) -> QMat3 {
    QMat3 {
        x: QVec3 { x: m.x.x, y: m.x.y, z: q_int(0) },
        y: QVec3 { x: m.y.x, y: m.y.y, z: q_int(0) },
        z: QVec3 { x: q_int(0), y: q_int(0), z: q_int(1) },
    }
}

pub open spec fn qm3_mul_ok(a: QMat3, b: QMat3) -> bool {
    &&& qdot3_ok(qm3_row0(a), b.x)
    &&& qdot3_ok(qm3_row1(a), b.x)
    &&& qdot3_ok(qm3_row2(a), b.x)
    &&& qdot3_ok(qm3_row0(a), b.y)
    &&& qdot3_ok(qm3_row1(a), b.y)
    &&& qdot3_ok(qm3_row2(a), b.y)
    &&& qdot3_ok(qm3_row0(a), b.z)
    &&& qdot3_ok(qm3_row1(a), b.z)
    &&& qdot3_ok(qm3_row2(a), b.z)
}

pub open spec fn qm3_det_ok(a: QMat3) -> bool {
    &&& qcross_ok(a.y, a.z)
    &&& qdot3_ok(a.x, qcross(a.y, a.z))
}

pub open spec fn qm3_inv_ok(a: QMat3) -> bool {
    &&& qcross_ok(a.z, a.x)
    &&& qcross_ok(a.x, a.y)
    &&& q_div_ok(qcross(a.y, a.z).x, qm3_det(a))
    &&& q_div_ok(qcross(a.y, a.z).y, qm3_det(a))
    &&& q_div_ok(qcross(a.y, a.z).z, qm3_det(a))
    &&& q_div_ok(qcross(a.z, a.x).x, qm3_det(a))
    &&& q_div_ok(qcross(a.z, a.x).y, qm3_det(a))
    &&& q_div_ok(qcross(a.z, a.x).z, qm3_det(a))
    &&& q_div_ok(qcross(a.x, a.y).x, qm3_det(a))
    &&& q_div_ok(qcross(a.x, a.y).y, qm3_det(a))
    &&& q_div_ok(qcross(a.x, a.y).z, qm3_det(a))
}

/// A 3×3 column-major matrix: columns `x`, `y` and `z`.
#[derive(Clone, Copy)]
pub struct Mat3 {
    pub x: Vec3,
    pub y: Vec3,
    pub z: Vec3,
}

impl View for Mat3 {
    type V = QMat3;

    open spec fn view(&self) -> QMat3 {
        QMat3 { x: self.x@, y: self.y@, z: self.z@ }
    }
}

impl Mat3 {
    pub open spec fn wf(self) -> bool {
        self.x.wf() && self.y.wf() && self.z.wf()
    }

    /// Builds the matrix from components given column by column.
    pub fn new(
        c0r0: Rat, c0r1: Rat, c0r2: Rat,
        c1r0: Rat, c1r1: Rat, c1r2: Rat,
        c2r0: Rat, c2r1: Rat, c2r2: Rat,
    ) -> (r: Mat3)
        requires
            c0r0.wf(), c0r1.wf(), c0r2.wf(),
            c1r0.wf(), c1r1.wf(), c1r2.wf(),
            c2r0.wf(), c2r1.wf(), c2r2.wf(),
        ensures
            r.wf(),
            r@ == (QMat3 {
                x: QVec3 { x: c0r0@, y: c0r1@, z: c0r2@ },
                y: QVec3 { x: c1r0@, y: c1r1@, z: c1r2@ },
                z: QVec3 { x: c2r0@, y: c2r1@, z: c2r2@ },
            }),
    {
        Mat3 {
            x: Vec3::new(c0r0, c0r1, c0r2),
            y: Vec3::new(c1r0, c1r1, c1r2),
            z: Vec3::new(c2r0, c2r1, c2r2),
        }
    }

    pub fn from_cols(c0: Vec3, c1: Vec3, c2: Vec3) -> (r: Mat3)
        requires
            c0.wf(),
            c1.wf(),
            c2.wf(),
        ensures
            r.wf(),
            r@ == (QMat3 { x: c0@, y: c1@, z: c2@ }),
    {
        Mat3 { x: c0, y: c1, z: c2 }
    }

    /// Diagonal fill from one scalar.
    pub fn from_value(value: Rat) -> (r: Mat3)
        requires
            value.wf(),
        ensures
            r.wf(),
            r@.x.x == value@ && r@.y.y == value@ && r@.z.z == value@,
            r@.x.y == q_int(0) && r@.x.z == q_int(0) && r@.y.x == q_int(0),
            r@.y.z == q_int(0) && r@.z.x == q_int(0) && r@.z.y == q_int(0),
    {
        let zero = Rat::zero();
        Mat3::new(value, zero, zero, zero, value, zero, zero, zero, value)
    }

    /// Embeds a 2×2 matrix in the top-left block of the identity.
    #[allow(non_snake_case)]
    pub fn from_Mat2(m: &crate::mat2::Mat2) -> (r: Mat3)
        requires
            m.wf(),
        ensures
            r.wf(),
            r@ == qm3_from_mat2(m@),
    {
        let zero = Rat::zero();
        let one = Rat::one();
        Mat3::new(m.x.x, m.x.y, zero, m.y.x, m.y.y, zero, zero, zero, one)
    }

    pub fn zero() -> (r: Mat3)
        ensures
            r.wf(),
            r@ == qm3_zero(),
    {
        let zero = Rat::zero();
        Mat3::new(zero, zero, zero, zero, zero, zero, zero, zero, zero)
    }

    pub fn identity() -> (r: Mat3)
        ensures
            r.wf(),
            r@ == qm3_id(),
    {
        let zero = Rat::zero();
        let one = Rat::one();
        Mat3::new(one, zero, zero, zero, one, zero, zero, zero, one)
    }

    pub fn rows(&self) -> (r: usize)
        ensures
            r == 3,
    {
        3
    }

    pub fn cols(&self) -> (r: usize)
        ensures
            r == 3,
    {
        3
    }

    pub fn is_col_major(&self) -> (r: bool)
        ensures
            r,
    {
        true
    }

    pub fn is_square(&self) -> (r: bool)
        ensures
            r,
    {
        true
    }

    pub fn col(&self, i: usize) -> (r: Vec3)
        requires
            i < 3,
        ensures
            r@ == if i == 0 { self@.x } else if i == 1 { self@.y } else { self@.z },
    {
        if i == 0 {
            self.x
        } else if i == 1 {
            self.y
        } else {
            self.z
        }
    }

    pub fn row(&self, i: usize) -> (r: Vec3)
        requires
            i < 3,
        ensures
            r@ == if i == 0 { qm3_row0(self@) } else if i == 1 { qm3_row1(self@) } else {
                qm3_row2(self@)
            },
    {
        if i == 0 {
            Vec3 { x: self.x.x, y: self.y.x, z: self.z.x }
        } else if i == 1 {
            Vec3 { x: self.x.y, y: self.y.y, z: self.z.y }
        } else {
            Vec3 { x: self.x.z, y: self.y.z, z: self.z.z }
        }
    }

    pub fn neg(&self) -> (r: Mat3)
        requires
            self.wf(),
        ensures
            r.wf(),
            r@ == qm3_neg(self@),
    {
        Mat3 { x: self.x.neg(), y: self.y.neg(), z: self.z.neg() }
    }

    pub fn mul_t(&self, value: Rat) -> (r: Mat3)
        requires
            self.wf(),
            value.wf(),
            qv3_in_range(qv3_scale(self@.x, value@)),
            qv3_in_range(qv3_scale(self@.y, value@)),
            qv3_in_range(qv3_scale(self@.z, value@)),
        ensures
            r.wf(),
            r@ == qm3_scale(self@, value@),
    {
        Mat3 { x: self.x.mul_t(value), y: self.y.mul_t(value), z: self.z.mul_t(value) }
    }

    pub fn mul_v(&self, other: &Vec3) -> (r: Vec3)
        requires
            self.wf(),
            other.wf(),
            qdot3_ok(qm3_row0(self@), other@),
            qdot3_ok(qm3_row1(self@), other@),
            qdot3_ok(qm3_row2(self@), other@),
        ensures
            r.wf(),
            r@ == qm3_mul_v(self@, other@),
    {
        let r0 = self.row(0);
        let r1 = self.row(1);
        let r2 = self.row(2);
        Vec3 { x: r0.dot(other), y: r1.dot(other), z: r2.dot(other) }
    }

    pub fn add_m(&self, other: &Mat3) -> (r: Mat3)
        requires
            self.wf(),
            other.wf(),
            qv3_in_range(qv3_add(self@.x, other@.x)),
            qv3_in_range(qv3_add(self@.y, other@.y)),
            qv3_in_range(qv3_add(self@.z, other@.z)),
        ensures
            r.wf(),
            r@ == qm3_add(self@, other@),
    {
        Mat3 {
            x: self.x.add_v(&other.x),
            y: self.y.add_v(&other.y),
            z: self.z.add_v(&other.z),
        }
    }

    pub fn sub_m(&self, other: &Mat3) -> (r: Mat3)
        requires
            self.wf(),
            other.wf(),
            qv3_in_range(qv3_sub(self@.x, other@.x)),
            qv3_in_range(qv3_sub(self@.y, other@.y)),
            qv3_in_range(qv3_sub(self@.z, other@.z)),
        ensures
            r.wf(),
            r@ == qm3_sub(self@, other@),
    {
        Mat3 {
            x: self.x.sub_v(&other.x),
            y: self.y.sub_v(&other.y),
            z: self.z.sub_v(&other.z),
        }
    }

    pub fn mul_m(&self, other: &Mat3) -> (r: Mat3)
        requires
            self.wf(),
            other.wf(),
            qm3_mul_ok(self@, other@),
        ensures
            r.wf(),
            r@ == qm3_mul(self@, other@),
    {
        let r0 = self.row(0);
        let r1 = self.row(1);
        let r2 = self.row(2);
        Mat3::new(
            r0.dot(&other.col(0)), r1.dot(&other.col(0)), r2.dot(&other.col(0)),
            r0.dot(&other.col(1)), r1.dot(&other.col(1)), r2.dot(&other.col(1)),
            r0.dot(&other.col(2)), r1.dot(&other.col(2)), r2.dot(&other.col(2)),
        )
    }

    pub fn det(&self) -> (r: Rat)
        requires
            self.wf(),
            qm3_det_ok(self@),
        ensures
            r.wf(),
            r@ == qm3_det(self@),
    {
        self.x.dot(&self.y.cross(&self.z))
    }

    /// Total form of `det`: `None` exactly when an intermediate would not fit.
    pub fn checked_det(&self) -> (r: Option<Rat>)
        requires
            self.wf(),
        ensures
            match r {
                Some(v) => v.wf() && v@ == qm3_det(self@),
                None => !qm3_det_ok(self@),
            },
    {
        let c = match self.y.checked_cross(&self.z) {
            Some(v) => v,
            None => { return None; },
        };
        self.x.checked_dot(&c)
    }

    /// The inverse, absent exactly when the determinant is zero.
    pub fn invert(&self) -> (r: Option<Mat3>)
        requires
            self.wf(),
            qm3_det_ok(self@),
            q_eq(qm3_det(self@), q_int(0)) || qm3_inv_ok(self@),
        ensures
            match r {
                Option::None => q_eq(qm3_det(self@), q_int(0)),
                Option::Some(v) => {
                    &&& !q_eq(qm3_det(self@), q_int(0))
                    &&& v.wf()
                    &&& qm3_eq(v@, qm3_inv(self@))
                },
            },
    {
        let d = self.det();
        if d.is_zero() {
            None
        } else {
            Some(
                Mat3::from_cols(
                    self.y.cross(&self.z).div_t(d),
                    self.z.cross(&self.x).div_t(d),
                    self.x.cross(&self.y).div_t(d),
                ).transpose(),
            )
        }
    }

    pub fn transpose(&self) -> (r: Mat3)
        requires
            self.wf(),
        ensures
            r.wf(),
            r@ == qm3_transpose(self@),
    {
        Mat3::new(
            self.x.x, self.y.x, self.z.x,
            self.x.y, self.y.y, self.z.y,
            self.x.z, self.y.z, self.z.z,
        )
    }

    pub fn is_identity(&self) -> (r: bool)
        requires
            self.wf(),
        ensures
            r == qm3_eq(self@, qm3_id()),
    {
        self.fuzzy_eq(&Mat3::identity())
    }

    pub fn is_symmetric(&self) -> (r: bool)
        requires
            self.wf(),
        ensures
            r == {
                &&& q_eq(self@.x.y, self@.y.x)
                &&& q_eq(self@.x.z, self@.z.x)
                &&& q_eq(self@.y.x, self@.x.y)
                &&& q_eq(self@.y.z, self@.z.y)
                &&& q_eq(self@.z.x, self@.x.z)
                &&& q_eq(self@.z.y, self@.y.z)
            },
    {
        self.x.y.fuzzy_eq(self.y.x) && self.x.z.fuzzy_eq(self.z.x)
            && self.y.x.fuzzy_eq(self.x.y) && self.y.z.fuzzy_eq(self.z.y)
            && self.z.x.fuzzy_eq(self.x.z) && self.z.y.fuzzy_eq(self.y.z)
    }

    pub fn is_diagonal(&self) -> (r: bool)
        requires
            self.wf(),
        ensures
            r == {
                &&& q_eq(self@.x.y, q_int(0))
                &&& q_eq(self@.x.z, q_int(0))
                &&& q_eq(self@.y.x, q_int(0))
                &&& q_eq(self@.y.z, q_int(0))
                &&& q_eq(self@.z.x, q_int(0))
                &&& q_eq(self@.z.y, q_int(0))
            },
    {
        let zero = Rat::zero();
        self.x.y.fuzzy_eq(zero) && self.x.z.fuzzy_eq(zero) && self.y.x.fuzzy_eq(zero)
            && self.y.z.fuzzy_eq(zero) && self.z.x.fuzzy_eq(zero) && self.z.y.fuzzy_eq(zero)
    }

    /// Whether the matrix differs from the identity; a non-identity matrix
    /// need not be a rotation, the name keeps the family's historic meaning.
    pub fn is_rotated(&self) -> (r: bool)
        requires
            self.wf(),
        ensures
            r == !qm3_eq(self@, qm3_id()),
    {
        !self.fuzzy_eq(&Mat3::identity())
    }

    pub fn is_invertible(&self) -> (r: bool)
        requires
            self.wf(),
            qm3_det_ok(self@),
        ensures
            r == !q_eq(qm3_det(self@), q_int(0)),
    {
        !self.det().is_zero()
    }

    /// The general equality of the family: tolerance equality.
    pub fn eq(&self, other: &Mat3) -> (r: bool)
        requires
            self.wf(),
            other.wf(),
        ensures
            r == qm3_eq(self@, other@),
    {
        self.fuzzy_eq(other)
    }

    pub fn ne(&self, other: &Mat3) -> (r: bool)
        requires
            self.wf(),
            other.wf(),
        ensures
            r == !qm3_eq(self@, other@),
    {
        !self.eq(other)
    }

    /// Tolerance equality, delegated columnwise to the scalar notion.
    pub fn fuzzy_eq(&self, other: &Mat3) -> (r: bool)
        requires
            self.wf(),
            other.wf(),
        ensures
            r == qm3_eq(self@, other@),
    {
        self.x.fuzzy_eq(&other.x) && self.y.fuzzy_eq(&other.y) && self.z.fuzzy_eq(&other.z)
    }

    /// Structural equality of the stored representation.
    pub fn exact_eq(&self, other: &Mat3) -> (r: bool)
        ensures
            r == (self@ == other@),
    {
        self.x.exact_eq(&other.x) && self.y.exact_eq(&other.y) && self.z.exact_eq(&other.z)
    }

    /// Widens into the top-left block of the 4×4 identity.
    #[allow(non_snake_case)]
    pub fn to_Mat4(&self) -> (r: crate::mat4::Mat4)
        requires
            self.wf(),
        ensures
            r.wf(),
            r@ == crate::mat4::qm4_from_mat3(self@),
    {
        crate::mat4::Mat4::from_Mat3(self)
    }
}

/// Dot products against the three basis columns pick out one component.
proof fn lemma_qdot3_basis(w: QVec3)
    requires
        qv3_wf(w),
    ensures
        q_eq(qdot3(w, (QVec3 { x: q_int(1), y: q_int(0), z: q_int(0) })), w.x),
        q_eq(qdot3(w, (QVec3 { x: q_int(0), y: q_int(1), z: q_int(0) })), w.y),
        q_eq(qdot3(w, (QVec3 { x: q_int(0), y: q_int(0), z: q_int(1) })), w.z),
        q_eq(qdot3((QVec3 { x: q_int(1), y: q_int(0), z: q_int(0) }), w), w.x),
        q_eq(qdot3((QVec3 { x: q_int(0), y: q_int(1), z: q_int(0) }), w), w.y),
        q_eq(qdot3((QVec3 { x: q_int(0), y: q_int(0), z: q_int(1) }), w), w.z),
{
    assert(q_eq(qdot3(w, (QVec3 { x: q_int(1), y: q_int(0), z: q_int(0) })), w.x))
        by (nonlinear_arith)
        requires
            qv3_wf(w),
    ;
    assert(q_eq(qdot3(w, (QVec3 { x: q_int(0), y: q_int(1), z: q_int(0) })), w.y))
        by (nonlinear_arith)
        requires
            qv3_wf(w),
    ;
    assert(q_eq(qdot3(w, (QVec3 { x: q_int(0), y: q_int(0), z: q_int(1) })), w.z))
        by (nonlinear_arith)
        requires
            qv3_wf(w),
    ;
    assert(q_eq(qdot3((QVec3 { x: q_int(1), y: q_int(0), z: q_int(0) }), w), w.x))
        by (nonlinear_arith)
        requires
            qv3_wf(w),
    ;
    assert(q_eq(qdot3((QVec3 { x: q_int(0), y: q_int(1), z: q_int(0) }), w), w.y))
        by (nonlinear_arith)
        requires
            qv3_wf(w),
    ;
    assert(q_eq(qdot3((QVec3 { x: q_int(0), y: q_int(0), z: q_int(1) }), w), w.z))
        by (nonlinear_arith)
        requires
            qv3_wf(w),
    ;
}

/// The identity is neutral for the matrix product, on both sides.
pub proof fn lemma_mat3_mul_identity(a: QMat3)
    requires
        qm3_wf(a),
    ensures
        qm3_eq(qm3_mul(a, qm3_id()), a),
        qm3_eq(qm3_mul(qm3_id(), a), a),
{
    lemma_qdot3_basis(qm3_row0(a));
    lemma_qdot3_basis(qm3_row1(a));
    lemma_qdot3_basis(qm3_row2(a));
    lemma_qdot3_basis(a.x);
    lemma_qdot3_basis(a.y);
    lemma_qdot3_basis(a.z);
    assert(qm3_row0(qm3_id()) == (QVec3 { x: q_int(1), y: q_int(0), z: q_int(0) }));
    assert(qm3_row1(qm3_id()) == (QVec3 { x: q_int(0), y: q_int(1), z: q_int(0) }));
    assert(qm3_row2(qm3_id()) == (QVec3 { x: q_int(0), y: q_int(0), z: q_int(1) }));
}

/// Transposing twice gives the matrix back, structurally.
pub proof fn lemma_mat3_transpose_involutive(a: QMat3)
    ensures
        qm3_transpose(qm3_transpose(a)) == a,
{
    assert(qm3_transpose(qm3_transpose(a)) == a);
}

/// Widening the 2×2 identity yields the 3×3 identity.
pub proof fn lemma_mat3_widen_identity()
    ensures
        qm3_from_mat2(crate::mat2::qm2_id()) == qm3_id(),
{
    assert(qm3_from_mat2(crate::mat2::qm2_id()) == qm3_id());
}

/// Two fractions equal in value to the factors make the cross products of
/// a two-term difference cancel.
proof fn lemma_cross_entry_zero(p: Q, q: Q, r: Q, s: Q)
    requires
        q_eq(p, r),
        q_eq(q, s),
    ensures
        q_sub(q_mul(p, s), q_mul(q, r)).n == 0,
{
    let e1: int = p.n * r.d;
    let f1: int = r.n * p.d;
    let e2: int = q.n * s.d;
    let f2: int = s.n * q.d;
    assert(e1 == f1);
    assert(e2 == f2);
    assert((p.n * s.n) * (q.d * r.d) == e1 * f2) by (nonlinear_arith)
        requires
            e1 == p.n * r.d,
            f2 == s.n * q.d,
    ;
    assert((q.n * r.n) * (p.d * s.d) == e2 * f1) by (nonlinear_arith)
        requires
            e2 == q.n * s.d,
            f1 == r.n * p.d,
    ;
    assert(e1 * f2 == f1 * e2);
}

/// A 3×3 matrix whose second and third columns are equal in value has
/// determinant zero.  (The scalar triple product against the cross product
/// of two equal columns vanishes.)
pub proof fn lemma_mat3_equal_cols_yz_det_zero(a: QMat3)
    requires
        qm3_wf(a),
        qv3_eq(a.y, a.z),
    ensures
        q_eq(qm3_det(a), q_int(0)),
{
    let g = qcross(a.y, a.z);
    lemma_cross_entry_zero(a.y.y, a.y.z, a.z.y, a.z.z);
    lemma_cross_entry_zero(a.y.z, a.y.x, a.z.z, a.z.x);
    lemma_cross_entry_zero(a.y.x, a.y.y, a.z.x, a.z.y);
    assert(g.x.n == 0 && g.y.n == 0 && g.z.n == 0);
    assert(q_mul(a.x.x, g.x).n == 0) by (nonlinear_arith)
        requires
            g == qcross(a.y, a.z),
            g.x.n == 0,
    ;
    assert(q_mul(a.x.y, g.y).n == 0) by (nonlinear_arith)
        requires
            g == qcross(a.y, a.z),
            g.y.n == 0,
    ;
    assert(q_mul(a.x.z, g.z).n == 0) by (nonlinear_arith)
        requires
            g == qcross(a.y, a.z),
            g.z.n == 0,
    ;
    let s1 = q_add(q_mul(a.x.x, g.x), q_mul(a.x.y, g.y));
    assert(s1.n == 0) by (nonlinear_arith)
        requires
            s1 == q_add(q_mul(a.x.x, g.x), q_mul(a.x.y, g.y)),
            q_mul(a.x.x, g.x).n == 0,
            q_mul(a.x.y, g.y).n == 0,
    ;
    assert(qm3_det(a).n == 0) by (nonlinear_arith)
        requires
            qm3_det(a) == q_add(s1, q_mul(a.x.z, g.z)),
            s1.n == 0,
            q_mul(a.x.z, g.z).n == 0,
    ;
    assert(q_eq(qm3_det(a), q_int(0))) by (nonlinear_arith)
        requires
            qm3_det(a).n == 0,
    ;
}

/// Sum of the diagonal entries.
pub open spec fn qm3_trace(m: QMat3) -> Q {
    q_add(q_add(m.x.x, m.y.y), m.z.z)
}

/// The radicand of the first conversion branch: `trace + 1`.
pub open spec fn quat_rad0(m: QMat3) -> Q {
    q_add(qm3_trace(m), q_int(1))
}

/// The radicand when the first diagonal entry dominates.
pub open spec fn quat_rad1(m: QMat3) -> Q {
    q_add(q_int(1), q_sub(q_sub(m.x.x, m.y.y), m.z.z))
}

pub open spec fn quat_rad2(m: QMat3) -> Q {
    q_add(q_int(1), q_sub(q_sub(m.y.y, m.x.x), m.z.z))
}

pub open spec fn quat_rad3(m: QMat3) -> Q {
    q_add(q_int(1), q_sub(q_sub(m.z.z, m.x.x), m.y.y))
}

/// The reciprocal of `2 s`, the factor applied to the antisymmetric
/// differences.
pub open spec fn quat_t(s: Q) -> Q {
    Q { n: s.d, d: 2 * s.n }
}

pub open spec fn quat_cond0(m: QMat3) -> bool {
    q_le(q_int(0), qm3_trace(m))
}

pub open spec fn quat_cond1(m: QMat3) -> bool {
    q_lt(m.y.y, m.x.x) && q_lt(m.z.z, m.x.x)
}

pub open spec fn quat_cond2(m: QMat3) -> bool {
    q_lt(m.z.z, m.y.y)
}

/// Components produced on the branch where the trace is non-negative.
pub open spec fn quat_b0(m: QMat3, s: Q) -> QQuat {
    let t = quat_t(s);
    QQuat {
        w: q_mul((Q { n: 1, d: 2 }), s),
        x: q_mul(q_sub(m.y.z, m.z.y), t),
        y: q_mul(q_sub(m.z.x, m.x.z), t),
        z: q_mul(q_sub(m.x.y, m.y.x), t),
    }
}

/// Components when the first diagonal entry dominates.
pub open spec fn quat_b1(m: QMat3, s: Q) -> QQuat {
    let t = quat_t(s);
    QQuat {
        w: q_mul((Q { n: 1, d: 2 }), s),
        x: q_mul(q_sub(m.x.y, m.y.x), t),
        y: q_mul(q_sub(m.z.x, m.x.z), t),
        z: q_mul(q_sub(m.y.z, m.z.y), t),
    }
}

/// Components when the second diagonal entry dominates.
pub open spec fn quat_b2(m: QMat3, s: Q) -> QQuat {
    let t = quat_t(s);
    QQuat {
        w: q_mul((Q { n: 1, d: 2 }), s),
        x: q_mul(q_sub(m.x.y, m.y.x), t),
        y: q_mul(q_sub(m.y.z, m.z.y), t),
        z: q_mul(q_sub(m.z.x, m.x.z), t),
    }
}

/// Components when the third diagonal entry dominates.
pub open spec fn quat_b3(m: QMat3, s: Q) -> QQuat {
    let t = quat_t(s);
    QQuat {
        w: q_mul((Q { n: 1, d: 2 }), s),
        x: q_mul(q_sub(m.z.x, m.x.z), t),
        y: q_mul(q_sub(m.y.z, m.z.y), t),
        z: q_mul(q_sub(m.x.y, m.y.x), t),
    }
}

/// An entry small enough for the conversion's arithmetic to stay within
/// the stored representation through every branch.  The bounds come from
/// the fixed granularity of the square root: its denominator is 256 times
/// the radicand's (a product of three entry denominators), and the scaled
/// differences must still fit the 64-bit fields after multiplying by its
/// reciprocal.
pub open spec fn quat_entry_ok(a: Q) -> bool {
    &&& -0x200000 <= a.n <= 0x200000
    &&& 1 <= a.d <= 256
}

pub open spec fn qm3_to_quat_ok(m: QMat3) -> bool {
    &&& quat_entry_ok(m.x.x) && quat_entry_ok(m.x.y) && quat_entry_ok(m.x.z)
    &&& quat_entry_ok(m.y.x) && quat_entry_ok(m.y.y) && quat_entry_ok(m.y.z)
    &&& quat_entry_ok(m.z.x) && quat_entry_ok(m.z.y) && quat_entry_ok(m.z.z)
}

/// Value order of scalars is transitive.
proof fn lemma_q_le_trans(x: Q, y: Q, z: Q)
    requires
        x.d >= 1,
        y.d >= 1,
        z.d >= 1,
        q_le(x, y),
        q_le(y, z),
    ensures
        q_le(x, z),
{
    assert((x.n * y.d) * z.d <= (y.n * x.d) * z.d) by (nonlinear_arith)
        requires
            x.n * y.d <= y.n * x.d,
            z.d >= 1,
    ;
    assert((y.n * z.d) * x.d <= (z.n * y.d) * x.d) by (nonlinear_arith)
        requires
            y.n * z.d <= z.n * y.d,
            x.d >= 1,
    ;
    assert((y.n * x.d) * z.d == (y.n * z.d) * x.d) by (nonlinear_arith);
    assert((x.n * z.d) * y.d <= (z.n * x.d) * y.d) by (nonlinear_arith)
        requires
            (x.n * y.d) * z.d <= (z.n * y.d) * x.d,
    ;
    assert(x.n * z.d <= z.n * x.d) by (nonlinear_arith)
        requires
            (x.n * z.d) * y.d <= (z.n * x.d) * y.d,
            y.d >= 1,
    ;
}

/// Rearrangement of the trace numerator when the diagonal is read in the
/// order third, first, second.
proof fn lemma_trace_perm(an: int, ad: int, bn: int, bd: int, cn: int, cd: int)
    ensures
        (cn * ad + an * cd) * bd + bn * (cd * ad) == (an * bd + bn * ad) * cd + cn * (ad * bd),
{
    assert((cn * ad + an * cd) * bd == (cn * ad) * bd + (an * cd) * bd) by (nonlinear_arith);
    assert((an * bd + bn * ad) * cd == (an * bd) * cd + (bn * ad) * cd) by (nonlinear_arith);
    assert((cn * ad) * bd == cn * (ad * bd)) by (nonlinear_arith);
    assert((an * cd) * bd == (an * bd) * cd) by (nonlinear_arith);
    assert(bn * (cd * ad) == (bn * ad) * cd) by (nonlinear_arith);
}

/// Shoemake's stability property: on the branch whose diagonal entry `a`
/// dominates the other two while the trace is negative, the radicand
/// `1 + a - b - c` is positive.
pub proof fn lemma_shoemake_radicand_pos(a: Q, b: Q, c: Q)
    requires
        a.d >= 1,
        b.d >= 1,
        c.d >= 1,
        q_le(b, a),
        q_le(c, a),
        (a.n * b.d + b.n * a.d) * c.d + c.n * (a.d * b.d) <= -1,
    ensures
        q_add(q_int(1), q_sub(q_sub(a, b), c)).n >= 1,
{
    let u: int = a.n * b.d - b.n * a.d;
    let v: int = u * c.d - c.n * (a.d * b.d);
    assert(u >= 0);
    if a.n >= 0 {
        assert(v >= 1) by (nonlinear_arith)
            requires
                u == a.n * b.d - b.n * a.d,
                v == u * c.d - c.n * (a.d * b.d),
                (a.n * b.d + b.n * a.d) * c.d + c.n * (a.d * b.d) <= -1,
                a.n >= 0,
                b.d >= 1,
                c.d >= 1,
                a.d >= 1,
    ;
    } else {
        assert(c.n <= -1) by (nonlinear_arith)
            requires
                c.n * a.d <= a.n * c.d,
                a.n <= -1,
                a.d >= 1,
                c.d >= 1,
        ;
        assert(v >= 1) by (nonlinear_arith)
            requires
                v == u * c.d - c.n * (a.d * b.d),
                u >= 0,
                c.d >= 1,
                c.n <= -1,
                a.d >= 1,
                b.d >= 1,
        ;
    }
    lemma_mul_pos(a.d, b.d);
    lemma_mul_pos(a.d * b.d, c.d);
    assert(q_add(q_int(1), q_sub(q_sub(a, b), c)).n == (a.d * b.d) * c.d + v);
}

/// Computes the square root `s` of the radicand, the factor `t = 1/(2s)`
/// and the component `w = s/2` of the conversion.
fn quat_scale_parts(rad: Rat) -> (r: (Rat, Rat, Rat))
    requires
        rad.wf(),
        1 <= rad@.n <= 0x10000000000,
        rad@.d <= 0x1000000,
    ensures
        r.0.wf() && r.1.wf() && r.2.wf(),
        sqrt_bracket(r.0@, rad@),
        r.0@.d == rad@.d * 256,
        1 <= r.0@.n <= 0x10000000000,
        r.1@ == quat_t(r.0@),
        r.2@ == q_mul((Q { n: 1, d: 2 }), r.0@),
    {
    let s = crate::rat::sqrt_scaled(rad);
    proof {
        assert(s@.n >= 1) by (nonlinear_arith)
            requires
                rad@.n >= 1,
                rad@.d >= 1,
                s@.d == rad@.d * 256,
                0 <= s@.n,
                rad@.n * (s@.d * s@.d) < ((s@.n + 1) * (s@.n + 1)) * rad@.d,
        ;
        assert(s@.n * s@.n <= (rad@.n * rad@.d) * 65536) by (nonlinear_arith)
            requires
                (s@.n * s@.n) * rad@.d <= rad@.n * (s@.d * s@.d),
                s@.d == rad@.d * 256,
                rad@.d >= 1,
        ;
        lemma_mul_bound(rad@.n, rad@.d, 0x10000000000, 0x1000000);
        assert(s@.n <= 0x10000000000) by (nonlinear_arith)
            requires
                s@.n * s@.n <= (rad@.n * rad@.d) * 65536,
                rad@.n * rad@.d <= 0x10000000000000000,
                0 <= s@.n,
        ;
    }
    let t = Rat::new(s.den, 2 * s.num);
    let half = Rat::new(1, 2);
    proof {
        assert(q_in_range(q_mul((Q { n: 1, d: 2 }), s@))) by (nonlinear_arith)
            requires
                1 <= s@.n <= 0x10000000000,
                1 <= s@.d <= 0x100000000,
        ;
    }
    let w = half.mul(s);
    (s, t, w)
}

/// Subtracts two matrix entries; the result of two in-range entries always
/// fits, and stays within the stated bounds.
fn entry_diff(p: Rat, q: Rat) -> (r: Rat)
    requires
        p.wf(),
        q.wf(),
        quat_entry_ok(p@),
        quat_entry_ok(q@),
    ensures
        r.wf(),
        r@ == q_sub(p@, q@),
        -0x40000000 <= r@.n <= 0x40000000,
        1 <= r@.d <= 0x10000,
{
    proof {
        assert(q_in_range(q_sub(p@, q@)) && -0x40000000 <= q_sub(p@, q@).n <= 0x40000000
            && q_sub(p@, q@).d <= 0x10000) by (nonlinear_arith)
            requires
                quat_entry_ok(p@),
                quat_entry_ok(q@),
        ;
    }
    p.sub(q)
}

/// The arithmetic of the trace and of the first radicand stays within the
/// stored representation for in-range entries.
proof fn lemma_trace_chain(aa: Q, bb: Q, cc: Q)
    requires
        quat_entry_ok(aa),
        quat_entry_ok(bb),
        quat_entry_ok(cc),
    ensures
        q_in_range(q_add(aa, bb)),
        q_in_range(q_add(q_add(aa, bb), cc)),
        q_in_range(q_add(q_add(q_add(aa, bb), cc), q_int(1))),
        q_add(q_add(q_add(aa, bb), cc), q_int(1)).n <= 0x10000000000,
        q_add(q_add(q_add(aa, bb), cc), q_int(1)).d <= 0x1000000,
{
    assert(q_in_range(q_add(aa, bb)) && q_in_range(q_add(q_add(aa, bb), cc)) && q_in_range(
        q_add(q_add(q_add(aa, bb), cc), q_int(1)),
    ) && q_add(q_add(q_add(aa, bb), cc), q_int(1)).n <= 0x10000000000 && q_add(
        q_add(q_add(aa, bb), cc),
        q_int(1),
    ).d <= 0x1000000) by (nonlinear_arith)
        requires
            quat_entry_ok(aa),
            quat_entry_ok(bb),
            quat_entry_ok(cc),
    ;
}

/// The arithmetic of a dominant-diagonal radicand stays within the stored
/// representation for in-range entries.
proof fn lemma_rad_chain(aa: Q, bb: Q, cc: Q)
    requires
        quat_entry_ok(aa),
        quat_entry_ok(bb),
        quat_entry_ok(cc),
    ensures
        q_in_range(q_sub(aa, bb)),
        q_in_range(q_sub(q_sub(aa, bb), cc)),
        q_in_range(q_add(q_int(1), q_sub(q_sub(aa, bb), cc))),
        q_add(q_int(1), q_sub(q_sub(aa, bb), cc)).n <= 0x10000000000,
        q_add(q_int(1), q_sub(q_sub(aa, bb), cc)).d <= 0x1000000,
{
    assert(q_in_range(q_sub(aa, bb)) && q_in_range(q_sub(q_sub(aa, bb), cc)) && q_in_range(
        q_add(q_int(1), q_sub(q_sub(aa, bb), cc)),
    ) && q_add(q_int(1), q_sub(q_sub(aa, bb), cc)).n <= 0x10000000000 && q_add(
        q_int(1),
        q_sub(q_sub(aa, bb), cc),
    ).d <= 0x1000000) by (nonlinear_arith)
        requires
            quat_entry_ok(aa),
            quat_entry_ok(bb),
            quat_entry_ok(cc),
    ;
}

/// Scales an antisymmetric difference by the factor `t` of the conversion.
fn diff_times(di: Rat, t: Rat) -> (r: Rat)
    requires
        di.wf(),
        t.wf(),
        -0x40000000 <= di@.n <= 0x40000000,
        1 <= di@.d <= 0x10000,
        1 <= t@.n <= 0x100000000,
        1 <= t@.d <= 0x40000000000,
    ensures
        r.wf(),
        r@ == q_mul(di@, t@),
{
    proof {
        assert(q_in_range(q_mul(di@, t@))) by (nonlinear_arith)
            requires
                -0x40000000 <= di@.n <= 0x40000000,
                1 <= di@.d <= 0x10000,
                1 <= t@.n <= 0x100000000,
                1 <= t@.d <= 0x40000000000,
        ;
    }
    di.mul(t)
}

impl Mat3 {
    /// Converts a rotation-like matrix into a quaternion with Shoemake's
    /// branch-selecting square-root method.  One of four branches is chosen
    /// by exact comparisons on the trace and the diagonal; the chosen
    /// branch's radicand is proved positive, its square root is taken at a
    /// fixed granularity, and the components are the stated exact formulas
    /// in that root.  Defined for any matrix within the entry bounds; the
    /// result is only meaningful for orthonormal input, which is not
    /// validated.
    #[allow(non_snake_case)]
    pub fn to_Quat(&self) -> (r: Quat)
        requires
            self.wf(),
            qm3_to_quat_ok(self@),
        ensures
            r.wf(),
            quat_cond0(self@) ==> (exists|s: Q|
                #[trigger] sqrt_bracket(s, quat_rad0(self@)) && s.d == quat_rad0(self@).d * 256
                    && r@ == quat_b0(self@, s)),
            !quat_cond0(self@) && quat_cond1(self@) ==> (exists|s: Q|
                #[trigger] sqrt_bracket(s, quat_rad1(self@)) && s.d == quat_rad1(self@).d * 256
                    && r@ == quat_b1(self@, s)),
            !quat_cond0(self@) && !quat_cond1(self@) && quat_cond2(self@) ==> (exists|s: Q|
                #[trigger] sqrt_bracket(s, quat_rad2(self@)) && s.d == quat_rad2(self@).d * 256
                    && r@ == quat_b2(self@, s)),
            !quat_cond0(self@) && !quat_cond1(self@) && !quat_cond2(self@) ==> (exists|s: Q|
                #[trigger] sqrt_bracket(s, quat_rad3(self@)) && s.d == quat_rad3(self@).d * 256
                    && r@ == quat_b3(self@, s)),
    {
        let d1 = entry_diff(self.y.z, self.z.y);
        let d2 = entry_diff(self.z.x, self.x.z);
        let d3 = entry_diff(self.x.y, self.y.x);
        let one = Rat::one();
        let zero = Rat::zero();
        proof {
            lemma_trace_chain(self@.x.x, self@.y.y, self@.z.z);
        }
        let tr = self.x.x.add(self.y.y).add(self.z.z);
        if zero.le(tr) {
            let rad = tr.add(one);
            let parts = quat_scale_parts(rad);
            let s = parts.0;
            let t = parts.1;
            let w = parts.2;
            let qx = diff_times(d1, t);
            let qy = diff_times(d2, t);
            let qz = diff_times(d3, t);
            let out = Quat::new(w, qx, qy, qz);
            proof {
                assert(rad@ == quat_rad0(self@));
                assert(sqrt_bracket(s@, quat_rad0(self@)) && s@.d == quat_rad0(self@).d * 256
                    && out@ == quat_b0(self@, s@));
            }
            out
        } else if self.y.y.lt(self.x.x) && self.z.z.lt(self.x.x) {
            proof {
                lemma_rad_chain(self@.x.x, self@.y.y, self@.z.z);
                lemma_shoemake_radicand_pos(self@.x.x, self@.y.y, self@.z.z);
            }
            let rad = one.add(self.x.x.sub(self.y.y).sub(self.z.z));
            let parts = quat_scale_parts(rad);
            let s = parts.0;
            let t = parts.1;
            let w = parts.2;
            let qx = diff_times(d3, t);
            let qy = diff_times(d2, t);
            let qz = diff_times(d1, t);
            let out = Quat::new(w, qx, qy, qz);
            proof {
                assert(rad@ == quat_rad1(self@));
                assert(sqrt_bracket(s@, quat_rad1(self@)) && s@.d == quat_rad1(self@).d * 256
                    && out@ == quat_b1(self@, s@));
            }
            out
        } else if self.z.z.lt(self.y.y) {
            proof {
                lemma_rad_chain(self@.y.y, self@.x.x, self@.z.z);
                if !q_le(self@.x.x, self@.y.y) {
                    lemma_q_le_trans(self@.x.x, self@.z.z, self@.y.y);
                    assert(false);
                }
                assert((self@.y.y.n * self@.x.x.d + self@.x.x.n * self@.y.y.d) * self@.z.z.d
                    + self@.z.z.n * (self@.y.y.d * self@.x.x.d) == qm3_trace(self@).n)
                    by (nonlinear_arith);
                lemma_shoemake_radicand_pos(self@.y.y, self@.x.x, self@.z.z);
            }
            let rad = one.add(self.y.y.sub(self.x.x).sub(self.z.z));
            let parts = quat_scale_parts(rad);
            let s = parts.0;
            let t = parts.1;
            let w = parts.2;
            let qx = diff_times(d3, t);
            let qy = diff_times(d1, t);
            let qz = diff_times(d2, t);
            let out = Quat::new(w, qx, qy, qz);
            proof {
                assert(rad@ == quat_rad2(self@));
                assert(sqrt_bracket(s@, quat_rad2(self@)) && s@.d == quat_rad2(self@).d * 256
                    && out@ == quat_b2(self@, s@));
            }
            out
        } else {
            proof {
                lemma_rad_chain(self@.z.z, self@.x.x, self@.y.y);
                if q_le(self@.x.x, self@.y.y) {
                    lemma_q_le_trans(self@.x.x, self@.y.y, self@.z.z);
                }
                let an: int = self@.x.x.n;
                let ad: int = self@.x.x.d;
                let bn: int = self@.y.y.n;
                let bd: int = self@.y.y.d;
                let cn: int = self@.z.z.n;
                let cd: int = self@.z.z.d;
                lemma_trace_perm(an, ad, bn, bd, cn, cd);
                assert(qm3_trace(self@).n == (an * bd + bn * ad) * cd + cn * (ad * bd));
                lemma_shoemake_radicand_pos(self@.z.z, self@.x.x, self@.y.y);
            }
            let rad = one.add(self.z.z.sub(self.x.x).sub(self.y.y));
            let parts = quat_scale_parts(rad);
            let s = parts.0;
            let t = parts.1;
            let w = parts.2;
            let qx = diff_times(d2, t);
            let qy = diff_times(d1, t);
            let qz = diff_times(d3, t);
            let out = Quat::new(w, qx, qy, qz);
            proof {
                assert(rad@ == quat_rad3(self@));
                assert(sqrt_bracket(s@, quat_rad3(self@)) && s@.d == quat_rad3(self@).d * 256
                    && out@ == quat_b3(self@, s@));
            }
            out
        }
    }
}

} // verus!

//! 4×4 column-major matrices, with Laplace-expansion determinants and
//! Gauss-Jordan inversion with partial pivoting.

use vstd::prelude::*;
use crate::rat::{Q, Rat, q_abs, q_add, q_eq, q_in_range, q_int, q_lt, q_mul, q_sub};
use crate::vectors::{
    QVec4, Vec4, qdot4, qdot4_ok, qv4_add, qv4_div_ok, qv4_divred, qv4_eq, qv4_in_range,
    qv4_neg, qv4_scale, qv4_sub, qv4_subscaled_ok, qv4_subscaled_red, qv4_wf,
};
use crate::mat2::QMat2;
use crate::mat3::{Mat3, QMat3, qm3_det, qm3_det_ok};
use crate::vectors::QVec3;

verus! {

/// Model of a 4×4 matrix: four model column vectors.
pub struct QMat4 {
    pub x: QVec4,
    pub y: QVec4,
    pub z: QVec4,
    pub w: QVec4,
}

pub open spec fn qm4_wf(a: QMat4) -> bool {
    qv4_wf(a.x) && qv4_wf(a.y) && qv4_wf(a.z) && qv4_wf(a.w)
}

/// Columnwise (hence entrywise) value equality.
pub open spec fn qm4_eq(a: QMat4, b: QMat4) -> bool {
    qv4_eq(a.x, b.x) && qv4_eq(a.y, b.y) && qv4_eq(a.z, b.z) && qv4_eq(a.w, b.w)
}

pub open spec fn qm4_id() -> QMat4 {
    QMat4 {
        x: QVec4 { x: q_int(1), y: q_int(0), z: q_int(0), w: q_int(0) },
        y: QVec4 { x: q_int(0), y: q_int(1), z: q_int(0), w: q_int(0) },
        z: QVec4 { x: q_int(0), y: q_int(0), z: q_int(1), w: q_int(0) },
        w: QVec4 { x: q_int(0), y: q_int(0), z: q_int(0), w: q_int(1) },
    }
}

pub open spec fn qm4_zero() -> QMat4 {
    QMat4 {
        x: QVec4 { x: q_int(0), y: q_int(0), z: q_int(0), w: q_int(0) },
        y: QVec4 { x: q_int(0), y: q_int(0), z: q_int(0), w: q_int(0) },
        z: QVec4 { x: q_int(0), y: q_int(0), z: q_int(0), w: q_int(0) },
        w: QVec4 { x: q_int(0), y: q_int(0), z: q_int(0), w: q_int(0) },
    }
}

pub open spec fn qm4_row0(a: QMat4) -> QVec4 {
    QVec4 { x: a.x.x, y: a.y.x, z: a.z.x, w: a.w.x }
}

pub open spec fn qm4_row1(a: QMat4) -> QVec4 {
    QVec4 { x: a.x.y, y: a.y.y, z: a.z.y, w: a.w.y }
}

pub open spec fn qm4_row2(a: QMat4) -> QVec4 {
    QVec4 { x: a.x.z, y: a.y.z, z: a.z.z, w: a.w.z }
}

pub open spec fn qm4_row3(a: QMat4) -> QVec4 {
    QVec4 { x: a.x.w, y: a.y.w, z: a.z.w, w: a.w.w }
}

pub open spec fn qm4_add(a: QMat4, b: QMat4) -> QMat4 {
    QMat4 {
        x: qv4_add(a.x, b.x),
        y: qv4_add(a.y, b.y),
        z: qv4_add(a.z, b.z),
        w: qv4_add(a.w, b.w),
    }
}

pub open spec fn qm4_sub(a: QMat4, b: QMat4) -> QMat4 {
    QMat4 {
        x: qv4_sub(a.x, b.x),
        y: qv4_sub(a.y, b.y),
        z: qv4_sub(a.z, b.z),
        w: qv4_sub(a.w, b.w),
    }
}

pub open spec fn qm4_neg(a: QMat4) -> QMat4 {
    QMat4 { x: qv4_neg(a.x), y: qv4_neg(a.y), z: qv4_neg(a.z), w: qv4_neg(a.w) }
}

pub open spec fn qm4_scale(a: QMat4, k: Q) -> QMat4 {
    QMat4 {
        x: qv4_scale(a.x, k),
        y: qv4_scale(a.y, k),
        z: qv4_scale(a.z, k),
        w: qv4_scale(a.w, k),
    }
}

/// Matrix product: entry in column `i`, row `j` is `row j of a · column i of b`.
pub open spec fn qm4_mul(a: QMat4, b: QMat4) -> QMat4 {
    QMat4 {
        x: QVec4 {
            x: qdot4(qm4_row0(a), b.x),
            y: qdot4(qm4_row1(a), b.x),
            z: qdot4(qm4_row2(a), b.x),
            w: qdot4(qm4_row3(a), b.x),
        },
        y: QVec4 {
            x: qdot4(qm4_row0(a), b.y),
            y: qdot4(qm4_row1(a), b.y),
            z: qdot4(qm4_row2(a), b.y),
            w: qdot4(qm4_row3(a), b.y),
        },
        z: QVec4 {
            x: qdot4(qm4_row0(a), b.z),
            y: qdot4(qm4_row1(a), b.z),
            z: qdot4(qm4_row2(a), b.z),
            w: qdot4(qm4_row3(a), b.z),
        },
        w: QVec4 {
            x: qdot4(qm4_row0(a), b.w),
            y: qdot4(qm4_row1(a), b.w),
            z: qdot4(qm4_row2(a), b.w),
            w: qdot4(qm4_row3(a), b.w),
        },
    }
}

pub open spec fn qm4_mul_v(a: QMat4, v: QVec4) -> QVec4 {
    QVec4 {
        x: qdot4(qm4_row0(a), v),
        y: qdot4(qm4_row1(a), v),
        z: qdot4(qm4_row2(a), v),
        w: qdot4(qm4_row3(a), v),
    }
}

/// The 3×3 minor used for the cofactor of the leading entry of column `0`,
/// laid out as the executable code builds it.
pub open spec fn qm4_minor0(a: QMat4) -> QMat3 {
    QMat3 {
        x: QVec3 { x: a.y.y, y: a.z.y, z: a.w.y },
        y: QVec3 { x: a.y.z, y: a.z.z, z: a.w.z },
        z: QVec3 { x: a.y.w, y: a.z.w, z: a.w.w },
    }
}

pub open spec fn qm4_minor1(a: QMat4) -> QMat3 {
    QMat3 {
        x: QVec3 { x: a.x.y, y: a.z.y, z: a.w.y },
        y: QVec3 { x: a.x.z, y: a.z.z, z: a.w.z },
        z: QVec3 { x: a.x.w, y: a.z.w, z: a.w.w },
    }
}

pub open spec fn qm4_minor2(a: QMat4) -> QMat3 {
    QMat3 {
        x: QVec3 { x: a.x.y, y: a.y.y, z: a.w.y },
        y: QVec3 { x: a.x.z, y: a.y.z, z: a.w.z },
        z: QVec3 { x: a.x.w, y: a.y.w, z: a.w.w },
    }
}

pub open spec fn qm4_minor3(a: QMat4) -> QMat3 {
    QMat3 {
        x: QVec3 { x: a.x.y, y: a.y.y, z: a.z.y },
        y: QVec3 { x: a.x.z, y: a.y.z, z: a.z.z },
        z: QVec3 { x: a.x.w, y: a.y.w, z: a.z.w },
    }
}

/// Laplace cofactor expansion along the first row, signs `+ - + -`,
/// combined left to right.
pub open spec fn qm4_det(a: QMat4) -> Q {
    q_sub(
        q_add(
            q_sub(
                q_mul(a.x.x, qm3_det(qm4_minor0(a))),
                q_mul(a.y.x, qm3_det(qm4_minor1(a))),
            ),
            q_mul(a.z.x, qm3_det(qm4_minor2(a))),
        ),
        q_mul(a.w.x, qm3_det(qm4_minor3(a))),
    )
}

pub open spec fn qm4_transpose(a: QMat4) -> QMat4 {
    QMat4 { x: qm4_row0(a), y: qm4_row1(a), z: qm4_row2(a), w: qm4_row3(a) }
}

pub open spec fn qm4_col(a: QMat4, i: int) -> QVec4 {
    if i == 0 {
        a.x
    } else if i == 1 {
        a.y
    } else if i == 2 {
        a.z
    } else {
        a.w
    }
}

pub open spec fn qv4_comp(v: QVec4, j: int) -> Q {
    if j == 0 {
        v.x
    } else if j == 1 {
        v.y
    } else if j == 2 {
        v.z
    } else {
        v.w
    }
}

/// The entry in column `i`, row `j`.
pub open spec fn qm4_entry(a: QMat4, i: int, j: int) -> Q {
    qv4_comp(qm4_col(a, i), j)
}

pub open spec fn qm4_with_col(a: QMat4, i: int, v: QVec4) -> QMat4 {
    if i == 0 {
        QMat4 { x: v, ..a }
    } else if i == 1 {
        QMat4 { y: v, ..a }
    } else if i == 2 {
        QMat4 { z: v, ..a }
    } else {
        QMat4 { w: v, ..a }
    }
}

pub open spec fn qm4_swap_cols(a: QMat4, i1: int, j: int) -> QMat4 {
    qm4_with_col(qm4_with_col(a, i1, qm4_col(a, j)), j, qm4_col(a, i1))
}

/// The pivot choice of the elimination: the index of the largest-magnitude
/// entry of position `j` among the working columns `j..i`, scanned upward
/// with ties kept at the earlier index, exactly as the executable scan runs.
pub open spec fn gj_pivot(a: QMat4, j: int, i: int) -> int
    decreases i - j when i >= j + 1
{
    if i <= j + 1 {
        j
    } else {
        let prev = gj_pivot(a, j, i - 1);
        if q_lt(q_abs(qm4_entry(a, prev, j)), q_abs(qm4_entry(a, i - 1, j))) {
            i - 1
        } else {
            prev
        }
    }
}

/// One elimination sweep over the working columns, `None` where a stored
/// intermediate would not fit.
pub open spec fn gj_elim(a: QMat4, inv: QMat4, j: int, i2: int) -> Option<(QMat4, QMat4)>
    decreases 4 - i2
{
    if i2 >= 4 {
        Some((a, inv))
    } else if i2 == j {
        gj_elim(a, inv, j, i2 + 1)
    } else {
        let f = qm4_entry(a, i2, j);
        if !qv4_subscaled_ok(qm4_col(inv, i2), qm4_col(inv, j), f) {
            None
        } else {
            let inv2 = qm4_with_col(
                inv,
                i2,
                qv4_subscaled_red(qm4_col(inv, i2), qm4_col(inv, j), f),
            );
            if !qv4_subscaled_ok(qm4_col(a, i2), qm4_col(a, j), f) {
                None
            } else {
                let a2 = qm4_with_col(
                    a,
                    i2,
                    qv4_subscaled_red(qm4_col(a, i2), qm4_col(a, j), f),
                );
                gj_elim(a2, inv2, j, i2 + 1)
            }
        }
    }
}

/// One full pivot round: select, swap, normalise, eliminate; `None` on a
/// zero pivot or an intermediate that would not fit.
pub open spec fn gj_round(a: QMat4, inv: QMat4, j: int) -> Option<(QMat4, QMat4)> {
    let p = gj_pivot(a, j, 4);
    let a1 = qm4_swap_cols(a, p, j);
    let inv1 = qm4_swap_cols(inv, p, j);
    let pv = qm4_entry(a1, j, j);
    if pv.n == 0 {
        None
    } else if !qv4_div_ok(qm4_col(inv1, j), pv) {
        None
    } else {
        let inv2 = qm4_with_col(inv1, j, qv4_divred(qm4_col(inv1, j), pv));
        if !qv4_div_ok(qm4_col(a1, j), pv) {
            None
        } else {
            let a2 = qm4_with_col(a1, j, qv4_divred(qm4_col(a1, j), pv));
            gj_elim(a2, inv2, j, 0)
        }
    }
}

pub open spec fn gj_run(a: QMat4, inv: QMat4, j: int) -> Option<(QMat4, QMat4)>
    decreases 4 - j
{
    if j >= 4 {
        Some((a, inv))
    } else {
        match gj_round(a, inv, j) {
            Option::None => None,
            Option::Some(st) => gj_run(st.0, st.1, j + 1),
        }
    }
}

/// The candidate the elimination produces from the transpose and an
/// identity accumulator, where every step fits.
pub open spec fn qm4_gj(m: QMat4) -> Option<QMat4> {
    match gj_run(qm4_transpose(m), qm4_id(), 0) {
        Option::None => None,
        Option::Some(st) => Some(qm4_transpose(st.1)),
    }
}

/// The elimination goes through on `m`: every stored intermediate fits the
/// representation, every pivot is nonzero, the two verifying products fit,
/// and both equal the identity — the conditions under which an inverse is
/// owed.
pub open spec fn qm4_gj_ok(m: QMat4) -> bool {
    &&& qm4_gj(m).is_some()
    &&& qm4_mul_ok(qm4_gj(m).unwrap(), m)
    &&& qm4_mul_ok(m, qm4_gj(m).unwrap())
    &&& qm4_eq(qm4_mul(qm4_gj(m).unwrap(), m), qm4_id())
    &&& qm4_eq(qm4_mul(m, qm4_gj(m).unwrap()), qm4_id())
}

/// A failed elimination cannot satisfy [`qm4_gj_ok`].
proof fn lemma_gj_none(m: QMat4)
    requires
        gj_run(qm4_transpose(m), qm4_id(), 0).is_none(),
    ensures
        !qm4_gj_ok(m),
{
    assert(qm4_gj(m).is_none());
}

pub open spec fn qm4_mul_ok(a: QMat4, b: QMat4) -> bool {
    &&& qdot4_ok(qm4_row0(a), b.x) && qdot4_ok(qm4_row1(a), b.x)
    &&& qdot4_ok(qm4_row2(a), b.x) && qdot4_ok(qm4_row3(a), b.x)
    &&& qdot4_ok(qm4_row0(a), b.y) && qdot4_ok(qm4_row1(a), b.y)
    &&& qdot4_ok(qm4_row2(a), b.y) && qdot4_ok(qm4_row3(a), b.y)
    &&& qdot4_ok(qm4_row0(a), b.z) && qdot4_ok(qm4_row1(a), b.z)
    &&& qdot4_ok(qm4_row2(a), b.z) && qdot4_ok(qm4_row3(a), b.z)
    &&& qdot4_ok(qm4_row0(a), b.w) && qdot4_ok(qm4_row1(a), b.w)
    &&& qdot4_ok(qm4_row2(a), b.w) && qdot4_ok(qm4_row3(a), b.w)
}

pub open spec fn qm4_det_ok(a: QMat4) -> bool {
    &&& qm3_det_ok(qm4_minor0(a))
    &&& qm3_det_ok(qm4_minor1(a))
    &&& qm3_det_ok(qm4_minor2(a))
    &&& qm3_det_ok(qm4_minor3(a))
    &&& q_in_range(q_mul(a.x.x, qm3_det(qm4_minor0(a))))
    &&& q_in_range(q_mul(a.y.x, qm3_det(qm4_minor1(a))))
    &&& q_in_range(q_mul(a.z.x, qm3_det(qm4_minor2(a))))
    &&& q_in_range(q_mul(a.w.x, qm3_det(qm4_minor3(a))))
    &&& q_in_range(
        q_sub(q_mul(a.x.x, qm3_det(qm4_minor0(a))), q_mul(a.y.x, qm3_det(qm4_minor1(a)))),
    )
    &&& q_in_range(
        q_add(
            q_sub(q_mul(a.x.x, qm3_det(qm4_minor0(a))), q_mul(a.y.x, qm3_det(qm4_minor1(a)))),
            q_mul(a.z.x, qm3_det(qm4_minor2(a))),
        ),
    )
    &&& q_in_range(qm4_det(a))
}

/// A 4×4 column-major matrix: columns `x`, `y`, `z` and `w`.
#[derive(Clone, Copy)]
pub struct Mat4 {
    pub x: Vec4,
    pub y: Vec4,
    pub z: Vec4,
    pub w: Vec4,
}

impl View for Mat4 {
    type V = QMat4;

    open spec fn view(&self) -> QMat4 {
        QMat4 { x: self.x@, y: self.y@, z: self.z@, w: self.w@ }
    }
}

impl Mat4 {
    pub open spec fn wf(self) -> bool {
        self.x.wf() && self.y.wf() && self.z.wf() && self.w.wf()
    }

    /// Builds the matrix from components given column by column.
    pub fn new(
        c0r0: Rat, c0r1: Rat, c0r2: Rat, c0r3: Rat,
        c1r0: Rat, c1r1: Rat, c1r2: Rat, c1r3: Rat,
        c2r0: Rat, c2r1: Rat, c2r2: Rat, c2r3: Rat,
        c3r0: Rat, c3r1: Rat, c3r2: Rat, c3r3: Rat,
    ) -> (r: Mat4)
        requires
            c0r0.wf(), c0r1.wf(), c0r2.wf(), c0r3.wf(),
            c1r0.wf(), c1r1.wf(), c1r2.wf(), c1r3.wf(),
            c2r0.wf(), c2r1.wf(), c2r2.wf(), c2r3.wf(),
            c3r0.wf(), c3r1.wf(), c3r2.wf(), c3r3.wf(),
        ensures
            r.wf(),
            r@ == (QMat4 {
                x: QVec4 { x: c0r0@, y: c0r1@, z: c0r2@, w: c0r3@ },
                y: QVec4 { x: c1r0@, y: c1r1@, z: c1r2@, w: c1r3@ },
                z: QVec4 { x: c2r0@, y: c2r1@, z: c2r2@, w: c2r3@ },
                w: QVec4 { x: c3r0@, y: c3r1@, z: c3r2@, w: c3r3@ },
            }),
    {
        Mat4 {
            x: Vec4::new(c0r0, c0r1, c0r2, c0r3),
            y: Vec4::new(c1r0, c1r1, c1r2, c1r3),
            z: Vec4::new(c2r0, c2r1, c2r2, c2r3),
            w: Vec4::new(c3r0, c3r1, c3r2, c3r3),
        }
    }

    pub fn from_cols(c0: Vec4, c1: Vec4, c2: Vec4, c3: Vec4) -> (r: Mat4)
        requires
            c0.wf(),
            c1.wf(),
            c2.wf(),
            c3.wf(),
        ensures
            r.wf(),
            r@ == (QMat4 { x: c0@, y: c1@, z: c2@, w: c3@ }),
    {
        Mat4 { x: c0, y: c1, z: c2, w: c3 }
    }

    /// Diagonal fill from one scalar.
    pub fn from_value(value: Rat) -> (r: Mat4)
        requires
            value.wf(),
        ensures
            r.wf(),
            r@.x.x == value@ && r@.y.y == value@ && r@.z.z == value@ && r@.w.w == value@,
            r@.x.y == q_int(0) && r@.x.z == q_int(0) && r@.x.w == q_int(0),
            r@.y.x == q_int(0) && r@.y.z == q_int(0) && r@.y.w == q_int(0),
            r@.z.x == q_int(0) && r@.z.y == q_int(0) && r@.z.w == q_int(0),
            r@.w.x == q_int(0) && r@.w.y == q_int(0) && r@.w.z == q_int(0),
    {
        let z = Rat::zero();
        Mat4::new(value, z, z, z, z, value, z, z, z, z, value, z, z, z, z, value)
    }

    /// Embeds a 2×2 matrix in the top-left block of the identity.
    #[allow(non_snake_case)]
    pub fn from_Mat2(m: &crate::mat2::Mat2) -> (r: Mat4)
        requires
            m.wf(),
        ensures
            r.wf(),
            r@ == qm4_from_mat2(m@),
    {
        let z = Rat::zero();
        let one = Rat::one();
        Mat4::new(
            m.x.x, m.x.y, z, z,
            m.y.x, m.y.y, z, z,
            z, z, one, z,
            z, z, z, one,
        )
    }

    /// Embeds a 3×3 matrix in the top-left block of the identity.
    #[allow(non_snake_case)]
    pub fn from_Mat3(m: &Mat3) -> (r: Mat4)
        requires
            m.wf(),
        ensures
            r.wf(),
            r@ == qm4_from_mat3(m@),
    {
        let z = Rat::zero();
        let one = Rat::one();
        Mat4::new(
            m.x.x, m.x.y, m.x.z, z,
            m.y.x, m.y.y, m.y.z, z,
            m.z.x, m.z.y, m.z.z, z,
            z, z, z, one,
        )
    }

    pub fn zero() -> (r: Mat4)
        ensures
            r.wf(),
            r@ == qm4_zero(),
    {
        let z = Rat::zero();
        Mat4::new(z, z, z, z, z, z, z, z, z, z, z, z, z, z, z, z)
    }

    pub fn identity() -> (r: Mat4)
        ensures
            r.wf(),
            r@ == qm4_id(),
    {
        let z = Rat::zero();
        let one = Rat::one();
        Mat4::new(one, z, z, z, z, one, z, z, z, z, one, z, z, z, z, one)
    }

    pub fn rows(&self) -> (r: usize)
        ensures
            r == 4,
    {
        4
    }

    pub fn cols(&self) -> (r: usize)
        ensures
            r == 4,
    {
        4
    }

    pub fn is_col_major(&self) -> (r: bool)
        ensures
            r,
    {
        true
    }

    pub fn is_square(&self) -> (r: bool)
        ensures
            r,
    {
        true
    }

    pub fn col(&self, i: usize) -> (r: Vec4)
        requires
            i < 4,
        ensures
            r@ == if i == 0 { self@.x } else if i == 1 { self@.y } else if i == 2 { self@.z
            } else { self@.w },
    {
        if i == 0 {
            self.x
        } else if i == 1 {
            self.y
        } else if i == 2 {
            self.z
        } else {
            self.w
        }
    }

    pub fn row(&self, i: usize) -> (r: Vec4)
        requires
            i < 4,
        ensures
            r@ == if i == 0 { qm4_row0(self@) } else if i == 1 { qm4_row1(self@) } else if i == 2 {
                qm4_row2(self@)
            } else { qm4_row3(self@) },
    {
        if i == 0 {
            Vec4 { x: self.x.x, y: self.y.x, z: self.z.x, w: self.w.x }
        } else if i == 1 {
            Vec4 { x: self.x.y, y: self.y.y, z: self.z.y, w: self.w.y }
        } else if i == 2 {
            Vec4 { x: self.x.z, y: self.y.z, z: self.z.z, w: self.w.z }
        } else {
            Vec4 { x: self.x.w, y: self.y.w, z: self.z.w, w: self.w.w }
        }
    }

    /// Replaces column `i`.
    fn set_col(self, i: usize, v: Vec4) -> (r: Mat4)
        requires
            i < 4,
        ensures
            r@ == if i == 0 { (QMat4 { x: v@, ..self@ }) } else if i == 1 {
                (QMat4 { y: v@, ..self@ })
            } else if i == 2 { (QMat4 { z: v@, ..self@ }) } else { (QMat4 { w: v@, ..self@ }) },
    {
        if i == 0 {
            Mat4 { x: v, ..self }
        } else if i == 1 {
            Mat4 { y: v, ..self }
        } else if i == 2 {
            Mat4 { z: v, ..self }
        } else {
            Mat4 { w: v, ..self }
        }
    }

    pub fn neg(&self) -> (r: Mat4)
        requires
            self.wf(),
        ensures
            r.wf(),
            r@ == qm4_neg(self@),
    {
        Mat4 { x: self.x.neg(), y: self.y.neg(), z: self.z.neg(), w: self.w.neg() }
    }

    pub fn mul_t(&self, value: Rat) -> (r: Mat4)
        requires
            self.wf(),
            value.wf(),
            qv4_in_range(qv4_scale(self@.x, value@)),
            qv4_in_range(qv4_scale(self@.y, value@)),
            qv4_in_range(qv4_scale(self@.z, value@)),
            qv4_in_range(qv4_scale(self@.w, value@)),
        ensures
            r.wf(),
            r@ == qm4_scale(self@, value@),
    {
        Mat4 {
            x: self.x.mul_t(value),
            y: self.y.mul_t(value),
            z: self.z.mul_t(value),
            w: self.w.mul_t(value),
        }
    }

    pub fn mul_v(&self, other: &Vec4) -> (r: Vec4)
        requires
            self.wf(),
            other.wf(),
            qdot4_ok(qm4_row0(self@), other@),
            qdot4_ok(qm4_row1(self@), other@),
            qdot4_ok(qm4_row2(self@), other@),
            qdot4_ok(qm4_row3(self@), other@),
        ensures
            r.wf(),
            r@ == qm4_mul_v(self@, other@),
    {
        let r0 = self.row(0);
        let r1 = self.row(1);
        let r2 = self.row(2);
        let r3 = self.row(3);
        Vec4 { x: r0.dot(other), y: r1.dot(other), z: r2.dot(other), w: r3.dot(other) }
    }

    pub fn add_m(&self, other: &Mat4) -> (r: Mat4)
        requires
            self.wf(),
            other.wf(),
            qv4_in_range(qv4_add(self@.x, other@.x)),
            qv4_in_range(qv4_add(self@.y, other@.y)),
            qv4_in_range(qv4_add(self@.z, other@.z)),
            qv4_in_range(qv4_add(self@.w, other@.w)),
        ensures
            r.wf(),
            r@ == qm4_add(self@, other@),
    {
        Mat4 {
            x: self.x.add_v(&other.x),
            y: self.y.add_v(&other.y),
            z: self.z.add_v(&other.z),
            w: self.w.add_v(&other.w),
        }
    }

    pub fn sub_m(&self, other: &Mat4) -> (r: Mat4)
        requires
            self.wf(),
            other.wf(),
            qv4_in_range(qv4_sub(self@.x, other@.x)),
            qv4_in_range(qv4_sub(self@.y, other@.y)),
            qv4_in_range(qv4_sub(self@.z, other@.z)),
            qv4_in_range(qv4_sub(self@.w, other@.w)),
        ensures
            r.wf(),
            r@ == qm4_sub(self@, other@),
    {
        Mat4 {
            x: self.x.sub_v(&other.x),
            y: self.y.sub_v(&other.y),
            z: self.z.sub_v(&other.z),
            w: self.w.sub_v(&other.w),
        }
    }

    pub fn mul_m(&self, other: &Mat4) -> (r: Mat4)
        requires
            self.wf(),
            other.wf(),
            qm4_mul_ok(self@, other@),
        ensures
            r.wf(),
            r@ == qm4_mul(self@, other@),
    {
        let r0 = self.row(0);
        let r1 = self.row(1);
        let r2 = self.row(2);
        let r3 = self.row(3);
        Mat4::new(
            r0.dot(&other.col(0)), r1.dot(&other.col(0)), r2.dot(&other.col(0)), r3.dot(&other.col(0)),
            r0.dot(&other.col(1)), r1.dot(&other.col(1)), r2.dot(&other.col(1)), r3.dot(&other.col(1)),
            r0.dot(&other.col(2)), r1.dot(&other.col(2)), r2.dot(&other.col(2)), r3.dot(&other.col(2)),
            r0.dot(&other.col(3)), r1.dot(&other.col(3)), r2.dot(&other.col(3)), r3.dot(&other.col(3)),
        )
    }

    /// Total matrix product: `None` exactly when an intermediate would not
    /// fit.
    fn checked_mul_m(&self, other: &Mat4) -> (r: Option<Mat4>)
        requires
            self.wf(),
            other.wf(),
        ensures
            match r {
                Some(v) => v.wf() && v@ == qm4_mul(self@, other@),
                None => !qm4_mul_ok(self@, other@),
            },
    {
        let r0 = self.row(0);
        let r1 = self.row(1);
        let r2 = self.row(2);
        let r3 = self.row(3);
        let e0 = match r0.checked_dot(&other.x) {
            Some(v) => v,
            None => { return None; },
        };
        let e1 = match r1.checked_dot(&other.x) {
            Some(v) => v,
            None => { return None; },
        };
        let e2 = match r2.checked_dot(&other.x) {
            Some(v) => v,
            None => { return None; },
        };
        let e3 = match r3.checked_dot(&other.x) {
            Some(v) => v,
            None => { return None; },
        };
        let e4 = match r0.checked_dot(&other.y) {
            Some(v) => v,
            None => { return None; },
        };
        let e5 = match r1.checked_dot(&other.y) {
            Some(v) => v,
            None => { return None; },
        };
        let e6 = match r2.checked_dot(&other.y) {
            Some(v) => v,
            None => { return None; },
        };
        let e7 = match r3.checked_dot(&other.y) {
            Some(v) => v,
            None => { return None; },
        };
        let e8 = match r0.checked_dot(&other.z) {
            Some(v) => v,
            None => { return None; },
        };
        let e9 = match r1.checked_dot(&other.z) {
            Some(v) => v,
            None => { return None; },
        };
        let e10 = match r2.checked_dot(&other.z) {
            Some(v) => v,
            None => { return None; },
        };
        let e11 = match r3.checked_dot(&other.z) {
            Some(v) => v,
            None => { return None; },
        };
        let e12 = match r0.checked_dot(&other.w) {
            Some(v) => v,
            None => { return None; },
        };
        let e13 = match r1.checked_dot(&other.w) {
            Some(v) => v,
            None => { return None; },
        };
        let e14 = match r2.checked_dot(&other.w) {
            Some(v) => v,
            None => { return None; },
        };
        let e15 = match r3.checked_dot(&other.w) {
            Some(v) => v,
            None => { return None; },
        };
        Some(
            Mat4::new(
                e0, e1, e2, e3, e4, e5, e6, e7, e8, e9, e10, e11, e12, e13, e14, e15,
            ),
        )
    }

    pub fn det(&self) -> (r: Rat)
        requires
            self.wf(),
            qm4_det_ok(self@),
        ensures
            r.wf(),
            r@ == qm4_det(self@),
    {
        let m0 = Mat3::new(
            self.y.y, self.z.y, self.w.y,
            self.y.z, self.z.z, self.w.z,
            self.y.w, self.z.w, self.w.w,
        );
        let m1 = Mat3::new(
            self.x.y, self.z.y, self.w.y,
            self.x.z, self.z.z, self.w.z,
            self.x.w, self.z.w, self.w.w,
        );
        let m2 = Mat3::new(
            self.x.y, self.y.y, self.w.y,
            self.x.z, self.y.z, self.w.z,
            self.x.w, self.y.w, self.w.w,
        );
        let m3 = Mat3::new(
            self.x.y, self.y.y, self.z.y,
            self.x.z, self.y.z, self.z.z,
            self.x.w, self.y.w, self.z.w,
        );
        self.x.x.mul(m0.det()).sub(self.y.x.mul(m1.det())).add(self.z.x.mul(m2.det())).sub(
            self.w.x.mul(m3.det()),
        )
    }

    /// Total form of `det`: `None` exactly when an intermediate would not fit.
    fn checked_det(&self) -> (r: Option<Rat>)
        requires
            self.wf(),
        ensures
            match r {
                Some(v) => v.wf() && v@ == qm4_det(self@),
                None => !qm4_det_ok(self@),
            },
    {
        let m0 = Mat3::new(
            self.y.y, self.z.y, self.w.y,
            self.y.z, self.z.z, self.w.z,
            self.y.w, self.z.w, self.w.w,
        );
        let m1 = Mat3::new(
            self.x.y, self.z.y, self.w.y,
            self.x.z, self.z.z, self.w.z,
            self.x.w, self.z.w, self.w.w,
        );
        let m2 = Mat3::new(
            self.x.y, self.y.y, self.w.y,
            self.x.z, self.y.z, self.w.z,
            self.x.w, self.y.w, self.w.w,
        );
        let m3 = Mat3::new(
            self.x.y, self.y.y, self.z.y,
            self.x.z, self.y.z, self.z.z,
            self.x.w, self.y.w, self.z.w,
        );
        let d0 = match m0.checked_det() {
            Some(v) => v,
            None => { return None; },
        };
        let d1 = match m1.checked_det() {
            Some(v) => v,
            None => { return None; },
        };
        let d2 = match m2.checked_det() {
            Some(v) => v,
            None => { return None; },
        };
        let d3 = match m3.checked_det() {
            Some(v) => v,
            None => { return None; },
        };
        let t0 = match self.x.x.checked_mul(d0) {
            Some(v) => v,
            None => { return None; },
        };
        let t1 = match self.y.x.checked_mul(d1) {
            Some(v) => v,
            None => { return None; },
        };
        let t2 = match self.z.x.checked_mul(d2) {
            Some(v) => v,
            None => { return None; },
        };
        let t3 = match self.w.x.checked_mul(d3) {
            Some(v) => v,
            None => { return None; },
        };
        let s0 = match t0.checked_sub(t1) {
            Some(v) => v,
            None => { return None; },
        };
        let s1 = match s0.checked_add(t2) {
            Some(v) => v,
            None => { return None; },
        };
        s1.checked_sub(t3)
    }

    /// Gauss-Jordan elimination with partial pivoting, on a working copy of
    /// the transpose and an identity accumulator.  The result is checked
    /// against the matrix before it is returned, so a present result is a
    /// genuine two-sided inverse; a singular matrix whose determinant is
    /// computable is always refused; and wherever the elimination goes
    /// through ([`qm4_gj_ok`]) on a matrix that is not singular, the inverse
    /// is owed: absence can only mean a zero determinant or an intermediate
    /// beyond the representation.
    pub fn invert(&self) -> (r: Option<Mat4>)
        requires
            self.wf(),
        ensures
            qm4_det_ok(self@) && q_eq(qm4_det(self@), q_int(0)) ==> r.is_none(),
            r.is_none() ==> q_eq(qm4_det(self@), q_int(0)) || !qm4_gj_ok(self@),
            match r {
                Option::None => true,
                Option::Some(v) => {
                    &&& v.wf()
                    &&& qm4_eq(qm4_mul(v@, self@), qm4_id())
                    &&& qm4_eq(qm4_mul(self@, v@), qm4_id())
                },
            },
    {
        match self.checked_det() {
            Some(d) => {
                if d.is_zero() {
                    return None;
                }
            },
            None => {},
        }
        proof {
            assert(!(qm4_det_ok(self@) && q_eq(qm4_det(self@), q_int(0))));
        }
        let mut a = self.transpose();
        let mut inv = Mat4::identity();
        let mut j: usize = 0;
        while j < 4
            invariant
                self.wf(),
                a.wf(),
                inv.wf(),
                j <= 4,
                !(qm4_det_ok(self@) && q_eq(qm4_det(self@), q_int(0))),
                gj_run(qm4_transpose(self@), qm4_id(), 0) == gj_run(a@, inv@, j as int),
            decreases 4 - j,
        {
            let ghost a0 = a@;
            let ghost inv0 = inv@;
            let ghost ji = j as int;
            let mut i1: usize = j;
            let mut i: usize = j + 1;
            proof {
                assert(gj_pivot(a0, ji, ji + 1) == ji);
            }
            while i < 4
                invariant
                    a.wf(),
                    j < 4,
                    j <= i1 < 4,
                    j < i <= 4,
                    a@ == a0,
                    ji == j as int,
                    i1 as int == gj_pivot(a0, ji, i as int),
                decreases 4 - i,
            {
                proof {
                    assert(gj_pivot(a0, ji, i as int + 1) == (if q_lt(
                        q_abs(qm4_entry(a0, gj_pivot(a0, ji, i as int), ji)),
                        q_abs(qm4_entry(a0, i as int, ji)),
                    ) {
                        i as int
                    } else {
                        gj_pivot(a0, ji, i as int)
                    }));
                }
                if a.col(i1).comp(j).abs().lt(a.col(i).comp(j).abs()) {
                    i1 = i;
                }
                i += 1;
            }
            let aj = a.col(j);
            let ai1 = a.col(i1);
            a = a.set_col(i1, aj).set_col(j, ai1);
            let ij = inv.col(j);
            let ii1 = inv.col(i1);
            inv = inv.set_col(i1, ij).set_col(j, ii1);
            proof {
                assert(i1 as int == gj_pivot(a0, ji, 4));
                assert(a@ == qm4_swap_cols(a0, i1 as int, ji));
                assert(inv@ == qm4_swap_cols(inv0, i1 as int, ji));
            }
            let ghost a1 = a@;
            let ghost inv1 = inv@;
            let p = a.col(j).comp(j);
            proof {
                assert(p@ == qm4_entry(a1, ji, ji));
            }
            if p.is_zero() {
                proof {
                    assert(p@.n == 0);
                    assert(gj_round(a0, inv0, ji) == Option::<(QMat4, QMat4)>::None);
                    assert(gj_run(a0, inv0, ji).is_none());
                    lemma_gj_none(self@);
                }
                return None;
            }
            proof {
                assert(p@.n != 0);
            }
            let newinv = match inv.col(j).checked_div_t(p) {
                Some(v) => v,
                None => {
                    proof {
                        assert(gj_round(a0, inv0, ji) == Option::<(QMat4, QMat4)>::None);
                        assert(gj_run(a0, inv0, ji).is_none());
                        lemma_gj_none(self@);
                    }
                    return None;
                },
            };
            inv = inv.set_col(j, newinv);
            let newa = match a.col(j).checked_div_t(p) {
                Some(v) => v,
                None => {
                    proof {
                        assert(gj_round(a0, inv0, ji) == Option::<(QMat4, QMat4)>::None);
                        assert(gj_run(a0, inv0, ji).is_none());
                        lemma_gj_none(self@);
                    }
                    return None;
                },
            };
            a = a.set_col(j, newa);
            let ghost a_el = a@;
            let ghost inv_el = inv@;
            proof {
                assert(a_el == qm4_with_col(a1, ji, qv4_divred(qm4_col(a1, ji), p@)));
                assert(inv_el == qm4_with_col(inv1, ji, qv4_divred(qm4_col(inv1, ji), p@)));
                assert(gj_round(a0, inv0, ji) == gj_elim(a_el, inv_el, ji, 0));
            }
            let mut i2: usize = 0;
            while i2 < 4
                invariant
                    self.wf(),
                    a.wf(),
                    inv.wf(),
                    j < 4,
                    i2 <= 4,
                    ji == j as int,
                    gj_run(qm4_transpose(self@), qm4_id(), 0) == gj_run(a0, inv0, ji),
                    gj_round(a0, inv0, ji) == gj_elim(a_el, inv_el, ji, 0),
                    gj_elim(a_el, inv_el, ji, 0) == gj_elim(a@, inv@, ji, i2 as int),
                decreases 4 - i2,
            {
                if i2 != j {
                    let ghost ah = a@;
                    let ghost invh = inv@;
                    let f = a.col(i2).comp(j);
                    proof {
                        assert(f@ == qm4_entry(ah, i2 as int, ji));
                    }
                    let ninv = match inv.col(i2).checked_sub_scaled(&inv.col(j), f) {
                        Some(v) => v,
                        None => {
                            proof {
                                assert(gj_elim(ah, invh, ji, i2 as int)
                                    == Option::<(QMat4, QMat4)>::None);
                                assert(gj_run(a0, inv0, ji).is_none());
                                lemma_gj_none(self@);
                            }
                            return None;
                        },
                    };
                    inv = inv.set_col(i2, ninv);
                    let na = match a.col(i2).checked_sub_scaled(&a.col(j), f) {
                        Some(v) => v,
                        None => {
                            proof {
                                assert(gj_elim(ah, invh, ji, i2 as int)
                                    == Option::<(QMat4, QMat4)>::None);
                                assert(gj_run(a0, inv0, ji).is_none());
                                lemma_gj_none(self@);
                            }
                            return None;
                        },
                    };
                    a = a.set_col(i2, na);
                    proof {
                        assert(gj_elim(ah, invh, ji, i2 as int)
                            == gj_elim(a@, inv@, ji, i2 as int + 1));
                    }
                } else {
                    proof {
                        assert(gj_elim(a@, inv@, ji, i2 as int)
                            == gj_elim(a@, inv@, ji, i2 as int + 1));
                    }
                }
                i2 += 1;
            }
            proof {
                assert(gj_elim(a@, inv@, ji, 4) == Some((a@, inv@)));
                assert(gj_run(a0, inv0, ji) == gj_run(a@, inv@, ji + 1));
            }
            j += 1;
        }
        proof {
            assert(gj_run(a@, inv@, 4) == Some((a@, inv@)));
        }
        let b = inv.transpose();
        proof {
            assert(qm4_gj(self@) == Some(b@));
        }
        let left = match b.checked_mul_m(self) {
            Some(v) => v,
            None => {
                proof {
                    assert(!qm4_mul_ok(qm4_gj(self@).unwrap(), self@));
                }
                return None;
            },
        };
        let right = match self.checked_mul_m(&b) {
            Some(v) => v,
            None => {
                proof {
                    assert(!qm4_mul_ok(self@, qm4_gj(self@).unwrap()));
                }
                return None;
            },
        };
        let idm = Mat4::identity();
        if left.fuzzy_eq(&idm) && right.fuzzy_eq(&idm) {
            Some(b)
        } else {
            proof {
                assert(!qm4_gj_ok(self@));
            }
            None
        }
    }

    pub fn transpose(&self) -> (r: Mat4)
        requires
            self.wf(),
        ensures
            r.wf(),
            r@ == qm4_transpose(self@),
    {
        Mat4::new(
            self.x.x, self.y.x, self.z.x, self.w.x,
            self.x.y, self.y.y, self.z.y, self.w.y,
            self.x.z, self.y.z, self.z.z, self.w.z,
            self.x.w, self.y.w, self.z.w, self.w.w,
        )
    }

    pub fn is_identity(&self) -> (r: bool)
        requires
            self.wf(),
        ensures
            r == qm4_eq(self@, qm4_id()),
    {
        self.fuzzy_eq(&Mat4::identity())
    }

    pub fn is_symmetric(&self) -> (r: bool)
        requires
            self.wf(),
        ensures
            r == {
                &&& q_eq(self@.x.y, self@.y.x) && q_eq(self@.x.z, self@.z.x)
                &&& q_eq(self@.x.w, self@.w.x) && q_eq(self@.y.x, self@.x.y)
                &&& q_eq(self@.y.z, self@.z.y) && q_eq(self@.y.w, self@.w.y)
                &&& q_eq(self@.z.x, self@.x.z) && q_eq(self@.z.y, self@.y.z)
                &&& q_eq(self@.z.w, self@.w.z) && q_eq(self@.w.x, self@.x.w)
                &&& q_eq(self@.w.y, self@.y.w) && q_eq(self@.w.z, self@.z.w)
            },
    {
        self.x.y.fuzzy_eq(self.y.x) && self.x.z.fuzzy_eq(self.z.x)
            && self.x.w.fuzzy_eq(self.w.x) && self.y.x.fuzzy_eq(self.x.y)
            && self.y.z.fuzzy_eq(self.z.y) && self.y.w.fuzzy_eq(self.w.y)
            && self.z.x.fuzzy_eq(self.x.z) && self.z.y.fuzzy_eq(self.y.z)
            && self.z.w.fuzzy_eq(self.w.z) && self.w.x.fuzzy_eq(self.x.w)
            && self.w.y.fuzzy_eq(self.y.w) && self.w.z.fuzzy_eq(self.z.w)
    }

    pub fn is_diagonal(&self) -> (r: bool)
        requires
            self.wf(),
        ensures
            r == {
                &&& q_eq(self@.x.y, q_int(0)) && q_eq(self@.x.z, q_int(0))
                &&& q_eq(self@.x.w, q_int(0)) && q_eq(self@.y.x, q_int(0))
                &&& q_eq(self@.y.z, q_int(0)) && q_eq(self@.y.w, q_int(0))
                &&& q_eq(self@.z.x, q_int(0)) && q_eq(self@.z.y, q_int(0))
                &&& q_eq(self@.z.w, q_int(0)) && q_eq(self@.w.x, q_int(0))
                &&& q_eq(self@.w.y, q_int(0)) && q_eq(self@.w.z, q_int(0))
            },
    {
        let z = Rat::zero();
        self.x.y.fuzzy_eq(z) && self.x.z.fuzzy_eq(z) && self.x.w.fuzzy_eq(z)
            && self.y.x.fuzzy_eq(z) && self.y.z.fuzzy_eq(z) && self.y.w.fuzzy_eq(z)
            && self.z.x.fuzzy_eq(z) && self.z.y.fuzzy_eq(z) && self.z.w.fuzzy_eq(z)
            && self.w.x.fuzzy_eq(z) && self.w.y.fuzzy_eq(z) && self.w.z.fuzzy_eq(z)
    }

    /// Whether the matrix differs from the identity; a non-identity matrix
    /// need not be a rotation, the name keeps the family's historic meaning.
    pub fn is_rotated(&self) -> (r: bool)
        requires
            self.wf(),
        ensures
            r == !qm4_eq(self@, qm4_id()),
    {
        !self.fuzzy_eq(&Mat4::identity())
    }

    pub fn is_invertible(&self) -> (r: bool)
        requires
            self.wf(),
            qm4_det_ok(self@),
        ensures
            r == !q_eq(qm4_det(self@), q_int(0)),
    {
        !self.det().is_zero()
    }

    /// The general equality of the family: tolerance equality.
    pub fn eq(&self, other: &Mat4) -> (r: bool)
        requires
            self.wf(),
            other.wf(),
        ensures
            r == qm4_eq(self@, other@),
    {
        self.fuzzy_eq(other)
    }

    pub fn ne(&self, other: &Mat4) -> (r: bool)
        requires
            self.wf(),
            other.wf(),
        ensures
            r == !qm4_eq(self@, other@),
    {
        !self.eq(other)
    }

    /// Tolerance equality, delegated columnwise to the scalar notion.
    pub fn fuzzy_eq(&self, other: &Mat4) -> (r: bool)
        requires
            self.wf(),
            other.wf(),
        ensures
            r == qm4_eq(self@, other@),
    {
        self.x.fuzzy_eq(&other.x) && self.y.fuzzy_eq(&other.y) && self.z.fuzzy_eq(&other.z)
            && self.w.fuzzy_eq(&other.w)
    }

    /// Structural equality of the stored representation.
    pub fn exact_eq(&self, other: &Mat4) -> (r: bool)
        ensures
            r == (self@ == other@),
    {
        self.x.exact_eq(&other.x) && self.y.exact_eq(&other.y) && self.z.exact_eq(&other.z)
            && self.w.exact_eq(&other.w)
    }
}

/// The 2×2 matrix embedded in the top-left block of the 4×4 identity.
pub open spec fn qm4_from_mat2(m: QMat2) -> QMat4 {
    QMat4 {
        x: QVec4 { x: m.x.x, y: m.x.y, z: q_int(0), w: q_int(0) },
        y: QVec4 { x: m.y.x, y: m.y.y, z: q_int(0), w: q_int(0) },
        z: QVec4 { x: q_int(0), y: q_int(0), z: q_int(1), w: q_int(0) },
        w: QVec4 { x: q_int(0), y: q_int(0), z: q_int(0), w: q_int(1) },
    }
}

/// The 3×3 matrix embedded in the top-left block of the 4×4 identity.
pub open spec fn qm4_from_mat3(m: QMat3) -> QMat4 {
    QMat4 {
        x: QVec4 { x: m.x.x, y: m.x.y, z: m.x.z, w: q_int(0) },
        y: QVec4 { x: m.y.x, y: m.y.y, z: m.y.z, w: q_int(0) },
        z: QVec4 { x: m.z.x, y: m.z.y, z: m.z.z, w: q_int(0) },
        w: QVec4 { x: q_int(0), y: q_int(0), z: q_int(0), w: q_int(1) },
    }
}

/// Dot products against the four basis columns pick out one component.
proof fn lemma_qdot4_basis(w: QVec4)
    requires
        qv4_wf(w),
    ensures
        q_eq(qdot4(w, (QVec4 { x: q_int(1), y: q_int(0), z: q_int(0), w: q_int(0) })), w.x),
        q_eq(qdot4(w, (QVec4 { x: q_int(0), y: q_int(1), z: q_int(0), w: q_int(0) })), w.y),
        q_eq(qdot4(w, (QVec4 { x: q_int(0), y: q_int(0), z: q_int(1), w: q_int(0) })), w.z),
        q_eq(qdot4(w, (QVec4 { x: q_int(0), y: q_int(0), z: q_int(0), w: q_int(1) })), w.w),
        q_eq(qdot4((QVec4 { x: q_int(1), y: q_int(0), z: q_int(0), w: q_int(0) }), w), w.x),
        q_eq(qdot4((QVec4 { x: q_int(0), y: q_int(1), z: q_int(0), w: q_int(0) }), w), w.y),
        q_eq(qdot4((QVec4 { x: q_int(0), y: q_int(0), z: q_int(1), w: q_int(0) }), w), w.z),
        q_eq(qdot4((QVec4 { x: q_int(0), y: q_int(0), z: q_int(0), w: q_int(1) }), w), w.w),
{
    assert(q_eq(qdot4(w, (QVec4 { x: q_int(1), y: q_int(0), z: q_int(0), w: q_int(0) })), w.x))
        by (nonlinear_arith)
        requires
            qv4_wf(w),
    ;
    assert(q_eq(qdot4(w, (QVec4 { x: q_int(0), y: q_int(1), z: q_int(0), w: q_int(0) })), w.y))
        by (nonlinear_arith)
        requires
            qv4_wf(w),
    ;
    assert(q_eq(qdot4(w, (QVec4 { x: q_int(0), y: q_int(0), z: q_int(1), w: q_int(0) })), w.z))
        by (nonlinear_arith)
        requires
            qv4_wf(w),
    ;
    assert(q_eq(qdot4(w, (QVec4 { x: q_int(0), y: q_int(0), z: q_int(0), w: q_int(1) })), w.w))
        by (nonlinear_arith)
        requires
            qv4_wf(w),
    ;
    assert(q_eq(qdot4((QVec4 { x: q_int(1), y: q_int(0), z: q_int(0), w: q_int(0) }), w), w.x))
        by (nonlinear_arith)
        requires
            qv4_wf(w),
    ;
    assert(q_eq(qdot4((QVec4 { x: q_int(0), y: q_int(1), z: q_int(0), w: q_int(0) }), w), w.y))
        by (nonlinear_arith)
        requires
            qv4_wf(w),
    ;
    assert(q_eq(qdot4((QVec4 { x: q_int(0), y: q_int(0), z: q_int(1), w: q_int(0) }), w), w.z))
        by (nonlinear_arith)
        requires
            qv4_wf(w),
    ;
    assert(q_eq(qdot4((QVec4 { x: q_int(0), y: q_int(0), z: q_int(0), w: q_int(1) }), w), w.w))
        by (nonlinear_arith)
        requires
            qv4_wf(w),
    ;
}

/// The identity is neutral for the matrix product, on both sides.
pub proof fn lemma_mat4_mul_identity(a: QMat4)
    requires
        qm4_wf(a),
    ensures
        qm4_eq(qm4_mul(a, qm4_id()), a),
        qm4_eq(qm4_mul(qm4_id(), a), a),
{
    lemma_qdot4_basis(qm4_row0(a));
    lemma_qdot4_basis(qm4_row1(a));
    lemma_qdot4_basis(qm4_row2(a));
    lemma_qdot4_basis(qm4_row3(a));
    lemma_qdot4_basis(a.x);
    lemma_qdot4_basis(a.y);
    lemma_qdot4_basis(a.z);
    lemma_qdot4_basis(a.w);
    assert(qm4_row0(qm4_id()) == (QVec4 { x: q_int(1), y: q_int(0), z: q_int(0), w: q_int(0) }));
    assert(qm4_row1(qm4_id()) == (QVec4 { x: q_int(0), y: q_int(1), z: q_int(0), w: q_int(0) }));
    assert(qm4_row2(qm4_id()) == (QVec4 { x: q_int(0), y: q_int(0), z: q_int(1), w: q_int(0) }));
    assert(qm4_row3(qm4_id()) == (QVec4 { x: q_int(0), y: q_int(0), z: q_int(0), w: q_int(1) }));
}

/// Transposing twice gives the matrix back, structurally.
pub proof fn lemma_mat4_transpose_involutive(a: QMat4)
    ensures
        qm4_transpose(qm4_transpose(a)) == a,
{
    assert(qm4_transpose(qm4_transpose(a)) == a);
}

/// Widening the 2×2 or the 3×3 identity yields the 4×4 identity, so the
/// identity survives the whole widening chain.
pub proof fn lemma_mat4_widen_identity()
    ensures
        qm4_from_mat2(crate::mat2::qm2_id()) == qm4_id(),
        qm4_from_mat3(crate::mat3::qm3_id()) == qm4_id(),
        qm4_from_mat3(crate::mat3::qm3_from_mat2(crate::mat2::qm2_id())) == qm4_id(),
{
    crate::mat3::lemma_mat3_widen_identity();
    assert(qm4_from_mat2(crate::mat2::qm2_id()) == qm4_id());
    assert(qm4_from_mat3(crate::mat3::qm3_id()) == qm4_id());
}

} // verus!

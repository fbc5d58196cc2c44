//! Column vectors of two, three and four exact scalars.
//!
//! These are the collaborators the matrix family is built from: fixed-size
//! column vectors with component construction, addition, subtraction,
//! scalar product and quotient, dot product, and (for three components) the
//! cross product.  Every operation states its exact result over the model
//! vectors [`QVec2`], [`QVec3`], [`QVec4`].

use vstd::prelude::*;
use crate::rat::{
    Q, Rat, q_add, q_div, q_div_norm, q_div_ok, q_eq, q_in_range, q_mul, q_neg, q_reduced,
    q_sub, q_wf,
};

verus! {

pub struct QVec2 {
    pub x: Q,
    pub y: Q,
}

pub struct QVec3 {
    pub x: Q,
    pub y: Q,
    pub z: Q,
}

pub struct QVec4 {
    pub x: Q,
    pub y: Q,
    pub z: Q,
    pub w: Q,
}

pub open spec fn qv2_wf(a: QVec2) -> bool {
    q_wf(a.x) && q_wf(a.y)
}

pub open spec fn qv3_wf(a: QVec3) -> bool {
    q_wf(a.x) && q_wf(a.y) && q_wf(a.z)
}

pub open spec fn qv4_wf(a: QVec4) -> bool {
    q_wf(a.x) && q_wf(a.y) && q_wf(a.z) && q_wf(a.w)
}

/// Componentwise value equality.
pub open spec fn qv2_eq(a: QVec2, b: QVec2) -> bool {
    q_eq(a.x, b.x) && q_eq(a.y, b.y)
}

pub open spec fn qv3_eq(a: QVec3, b: QVec3) -> bool {
    q_eq(a.x, b.x) && q_eq(a.y, b.y) && q_eq(a.z, b.z)
}

pub open spec fn qv4_eq(a: QVec4, b: QVec4) -> bool {
    q_eq(a.x, b.x) && q_eq(a.y, b.y) && q_eq(a.z, b.z) && q_eq(a.w, b.w)
}

pub open spec fn qv2_add(a: QVec2, b: QVec2) -> QVec2 {
    QVec2 { x: q_add(a.x, b.x), y: q_add(a.y, b.y) }
}

pub open spec fn qv3_add(a: QVec3, b: QVec3) -> QVec3 {
    QVec3 { x: q_add(a.x, b.x), y: q_add(a.y, b.y), z: q_add(a.z, b.z) }
}

pub open spec fn qv4_add(a: QVec4, b: QVec4) -> QVec4 {
    QVec4 { x: q_add(a.x, b.x), y: q_add(a.y, b.y), z: q_add(a.z, b.z), w: q_add(a.w, b.w) }
}

pub open spec fn qv2_sub(a: QVec2, b: QVec2) -> QVec2 {
    QVec2 { x: q_sub(a.x, b.x), y: q_sub(a.y, b.y) }
}

pub open spec fn qv3_sub(a: QVec3, b: QVec3) -> QVec3 {
    QVec3 { x: q_sub(a.x, b.x), y: q_sub(a.y, b.y), z: q_sub(a.z, b.z) }
}

pub open spec fn qv4_sub(a: QVec4, b: QVec4) -> QVec4 {
    QVec4 { x: q_sub(a.x, b.x), y: q_sub(a.y, b.y), z: q_sub(a.z, b.z), w: q_sub(a.w, b.w) }
}

pub open spec fn qv2_scale(a: QVec2, k: Q) -> QVec2 {
    QVec2 { x: q_mul(a.x, k), y: q_mul(a.y, k) }
}

pub open spec fn qv3_scale(a: QVec3, k: Q) -> QVec3 {
    QVec3 { x: q_mul(a.x, k), y: q_mul(a.y, k), z: q_mul(a.z, k) }
}

pub open spec fn qv4_scale(a: QVec4, k: Q) -> QVec4 {
    QVec4 { x: q_mul(a.x, k), y: q_mul(a.y, k), z: q_mul(a.z, k), w: q_mul(a.w, k) }
}

pub open spec fn qv3_div(a: QVec3, k: Q) -> QVec3 {
    QVec3 { x: q_div(a.x, k), y: q_div(a.y, k), z: q_div(a.z, k) }
}

pub open spec fn qv2_neg(a: QVec2) -> QVec2 {
    QVec2 { x: q_neg(a.x), y: q_neg(a.y) }
}

pub open spec fn qv3_neg(a: QVec3) -> QVec3 {
    QVec3 { x: q_neg(a.x), y: q_neg(a.y), z: q_neg(a.z) }
}

pub open spec fn qv4_neg(a: QVec4) -> QVec4 {
    QVec4 { x: q_neg(a.x), y: q_neg(a.y), z: q_neg(a.z), w: q_neg(a.w) }
}

/// Dot product, summed left to right as the executable code computes it.
pub open spec fn qdot2(a: QVec2, b: QVec2) -> Q {
    q_add(q_mul(a.x, b.x), q_mul(a.y, b.y))
}

pub open spec fn qdot3(a: QVec3, b: QVec3) -> Q {
    q_add(q_add(q_mul(a.x, b.x), q_mul(a.y, b.y)), q_mul(a.z, b.z))
}

pub open spec fn qdot4(a: QVec4, b: QVec4) -> Q {
    q_add(q_add(q_add(q_mul(a.x, b.x), q_mul(a.y, b.y)), q_mul(a.z, b.z)), q_mul(a.w, b.w))
}

/// Cross product of three-component vectors.
pub open spec fn qcross(a: QVec3, b: QVec3) -> QVec3 {
    QVec3 {
        x: q_sub(q_mul(a.y, b.z), q_mul(a.z, b.y)),
        y: q_sub(q_mul(a.z, b.x), q_mul(a.x, b.z)),
        z: q_sub(q_mul(a.x, b.y), q_mul(a.y, b.x)),
    }
}

/// Every intermediate of the dot product fits the stored representation.
pub open spec fn qdot2_ok(a: QVec2, b: QVec2) -> bool {
    &&& q_in_range(q_mul(a.x, b.x))
    &&& q_in_range(q_mul(a.y, b.y))
    &&& q_in_range(qdot2(a, b))
}

pub open spec fn qdot3_ok(a: QVec3, b: QVec3) -> bool {
    &&& q_in_range(q_mul(a.x, b.x))
    &&& q_in_range(q_mul(a.y, b.y))
    &&& q_in_range(q_mul(a.z, b.z))
    &&& q_in_range(q_add(q_mul(a.x, b.x), q_mul(a.y, b.y)))
    &&& q_in_range(qdot3(a, b))
}

pub open spec fn qdot4_ok(a: QVec4, b: QVec4) -> bool {
    &&& q_in_range(q_mul(a.x, b.x))
    &&& q_in_range(q_mul(a.y, b.y))
    &&& q_in_range(q_mul(a.z, b.z))
    &&& q_in_range(q_mul(a.w, b.w))
    &&& q_in_range(q_add(q_mul(a.x, b.x), q_mul(a.y, b.y)))
    &&& q_in_range(q_add(q_add(q_mul(a.x, b.x), q_mul(a.y, b.y)), q_mul(a.z, b.z)))
    &&& q_in_range(qdot4(a, b))
}

/// Every intermediate of the cross product fits the stored representation.
pub open spec fn qcross_ok(a: QVec3, b: QVec3) -> bool {
    &&& q_in_range(q_mul(a.y, b.z))
    &&& q_in_range(q_mul(a.z, b.y))
    &&& q_in_range(q_mul(a.z, b.x))
    &&& q_in_range(q_mul(a.x, b.z))
    &&& q_in_range(q_mul(a.x, b.y))
    &&& q_in_range(q_mul(a.y, b.x))
    &&& q_in_range(qcross(a, b).x)
    &&& q_in_range(qcross(a, b).y)
    &&& q_in_range(qcross(a, b).z)
}

/// Every component's quotient by `k` can be stored once sign-normalised.
pub open spec fn qv4_div_ok(v: QVec4, k: Q) -> bool {
    &&& q_div_ok(v.x, k)
    &&& q_div_ok(v.y, k)
    &&& q_div_ok(v.z, k)
    &&& q_div_ok(v.w, k)
}

/// The quotient of every component by `k`, brought to lower terms, exactly
/// as [`Vec4::checked_div_t`] stores it.
pub open spec fn qv4_divred(v: QVec4, k: Q) -> QVec4 {
    QVec4 {
        x: q_reduced(q_div_norm(v.x, k)),
        y: q_reduced(q_div_norm(v.y, k)),
        z: q_reduced(q_div_norm(v.z, k)),
        w: q_reduced(q_div_norm(v.w, k)),
    }
}

/// Every intermediate of `v - u * k` fits the stored representation.
pub open spec fn qv4_subscaled_ok(v: QVec4, u: QVec4, k: Q) -> bool {
    &&& q_in_range(q_mul(u.x, k)) && q_in_range(q_sub(v.x, q_mul(u.x, k)))
    &&& q_in_range(q_mul(u.y, k)) && q_in_range(q_sub(v.y, q_mul(u.y, k)))
    &&& q_in_range(q_mul(u.z, k)) && q_in_range(q_sub(v.z, q_mul(u.z, k)))
    &&& q_in_range(q_mul(u.w, k)) && q_in_range(q_sub(v.w, q_mul(u.w, k)))
}

/// `v - u * k` componentwise, brought to lower terms, exactly as
/// [`Vec4::checked_sub_scaled`] stores it.
pub open spec fn qv4_subscaled_red(v: QVec4, u: QVec4, k: Q) -> QVec4 {
    QVec4 {
        x: q_reduced(q_sub(v.x, q_mul(u.x, k))),
        y: q_reduced(q_sub(v.y, q_mul(u.y, k))),
        z: q_reduced(q_sub(v.z, q_mul(u.z, k))),
        w: q_reduced(q_sub(v.w, q_mul(u.w, k))),
    }
}

pub open spec fn qv2_in_range(a: QVec2) -> bool {
    q_in_range(a.x) && q_in_range(a.y)
}

pub open spec fn qv3_in_range(a: QVec3) -> bool {
    q_in_range(a.x) && q_in_range(a.y) && q_in_range(a.z)
}

pub open spec fn qv4_in_range(a: QVec4) -> bool {
    q_in_range(a.x) && q_in_range(a.y) && q_in_range(a.z) && q_in_range(a.w)
}

/// A common divisor moves out of the left operand of a dot product.
pub proof fn lemma_qdot2_div_left(u: Q, v: Q, d: Q, w: QVec2)
    ensures
        q_eq(
            qdot2((QVec2 { x: q_div(u, d), y: q_div(v, d) }), w),
            q_div(qdot2((QVec2 { x: u, y: v }), w), d),
        ),
{
    let nn: int = (u.n * w.x.n) * (v.d * w.y.d) + (v.n * w.y.n) * (u.d * w.x.d);
    let nd: int = (u.d * w.x.d) * (v.d * w.y.d);
    let ln: int = ((u.n * d.d) * w.x.n) * ((v.d * d.n) * w.y.d) + ((v.n * d.d) * w.y.n) * ((u.d
        * d.n) * w.x.d);
    let ld: int = ((u.d * d.n) * w.x.d) * ((v.d * d.n) * w.y.d);
    let t1: int = (u.n * w.x.n) * (v.d * w.y.d);
    let t2: int = (v.n * w.y.n) * (u.d * w.x.d);
    assert(((u.n * d.d) * w.x.n) * ((v.d * d.n) * w.y.d) == (d.d * d.n) * t1) by (nonlinear_arith)
        requires
            t1 == (u.n * w.x.n) * (v.d * w.y.d),
    ;
    assert(((v.n * d.d) * w.y.n) * ((u.d * d.n) * w.x.d) == (d.d * d.n) * t2) by (nonlinear_arith)
        requires
            t2 == (v.n * w.y.n) * (u.d * w.x.d),
    ;
    assert((d.d * d.n) * t1 + (d.d * d.n) * t2 == (d.d * d.n) * (t1 + t2)) by (nonlinear_arith);
    assert(ln == (d.d * d.n) * nn);
    assert(ld == (d.n * d.n) * nd) by (nonlinear_arith)
        requires
            nd == (u.d * w.x.d) * (v.d * w.y.d),
            ld == ((u.d * d.n) * w.x.d) * ((v.d * d.n) * w.y.d),
    ;
    assert(((d.d * d.n) * nn) * (nd * d.n) == (nn * d.d) * ((d.n * d.n) * nd))
        by (nonlinear_arith);
}

/// A common divisor moves out of the right operand of a dot product.
pub proof fn lemma_qdot2_div_right(u: Q, v: Q, d: Q, w: QVec2)
    ensures
        q_eq(
            qdot2(w, (QVec2 { x: q_div(u, d), y: q_div(v, d) })),
            q_div(qdot2(w, (QVec2 { x: u, y: v })), d),
        ),
{
    let nn: int = (w.x.n * u.n) * (w.y.d * v.d) + (w.y.n * v.n) * (w.x.d * u.d);
    let nd: int = (w.x.d * u.d) * (w.y.d * v.d);
    let ln: int = (w.x.n * (u.n * d.d)) * (w.y.d * (v.d * d.n)) + (w.y.n * (v.n * d.d)) * (w.x.d
        * (u.d * d.n));
    let ld: int = (w.x.d * (u.d * d.n)) * (w.y.d * (v.d * d.n));
    let t1: int = (w.x.n * u.n) * (w.y.d * v.d);
    let t2: int = (w.y.n * v.n) * (w.x.d * u.d);
    assert((w.x.n * (u.n * d.d)) * (w.y.d * (v.d * d.n)) == (d.d * d.n) * t1) by (nonlinear_arith)
        requires
            t1 == (w.x.n * u.n) * (w.y.d * v.d),
    ;
    assert((w.y.n * (v.n * d.d)) * (w.x.d * (u.d * d.n)) == (d.d * d.n) * t2) by (nonlinear_arith)
        requires
            t2 == (w.y.n * v.n) * (w.x.d * u.d),
    ;
    assert((d.d * d.n) * t1 + (d.d * d.n) * t2 == (d.d * d.n) * (t1 + t2)) by (nonlinear_arith);
    assert(ln == (d.d * d.n) * nn);
    assert(ld == (d.n * d.n) * nd) by (nonlinear_arith)
        requires
            nd == (w.x.d * u.d) * (w.y.d * v.d),
            ld == (w.x.d * (u.d * d.n)) * (w.y.d * (v.d * d.n)),
    ;
    assert(((d.d * d.n) * nn) * (nd * d.n) == (nn * d.d) * ((d.n * d.n) * nd))
        by (nonlinear_arith);
}

/// A row whose entries share a divisor `d`, dotted with `w`, has the value
/// `t` whenever the undivided dot product equals `t * d`.
pub proof fn lemma_qdot2_div_target_left(u: Q, v: Q, d: Q, w: QVec2, t: Q)
    requires
        u.d >= 1,
        v.d >= 1,
        d.d >= 1,
        t.d >= 1,
        qv2_wf(w),
        d.n != 0,
        q_eq(qdot2((QVec2 { x: u, y: v }), w), q_mul(t, d)),
    ensures
        q_eq(qdot2((QVec2 { x: q_div(u, d), y: q_div(v, d) }), w), t),
{
    let nvec = QVec2 { x: u, y: v };
    let e = qdot2(QVec2 { x: q_div(u, d), y: q_div(v, d) }, w);
    lemma_qdot2_div_left(u, v, d, w);
    crate::rat::lemma_qdiv_congr_num(qdot2(nvec, w), q_mul(t, d), d);
    crate::rat::lemma_qdiv_mul_cancel(t, d);
    crate::rat::lemma_mul_pos(u.d, w.x.d);
    crate::rat::lemma_mul_pos(v.d, w.y.d);
    crate::rat::lemma_mul_pos(u.d * w.x.d, v.d * w.y.d);
    crate::rat::lemma_mul_nonzero(qdot2(nvec, w).d, d.n);
    crate::rat::lemma_mul_pos(t.d, d.d);
    crate::rat::lemma_mul_nonzero(t.d * d.d, d.n);
    crate::rat::lemma_q_eq_trans(e, q_div(qdot2(nvec, w), d), q_div(q_mul(t, d), d));
    crate::rat::lemma_q_eq_trans(e, q_div(q_mul(t, d), d), t);
}

/// As [`lemma_qdot2_div_target_left`], with the divided entries on the right.
pub proof fn lemma_qdot2_div_target_right(u: Q, v: Q, d: Q, w: QVec2, t: Q)
    requires
        u.d >= 1,
        v.d >= 1,
        d.d >= 1,
        t.d >= 1,
        qv2_wf(w),
        d.n != 0,
        q_eq(qdot2(w, (QVec2 { x: u, y: v })), q_mul(t, d)),
    ensures
        q_eq(qdot2(w, (QVec2 { x: q_div(u, d), y: q_div(v, d) })), t),
{
    let nvec = QVec2 { x: u, y: v };
    let e = qdot2(w, QVec2 { x: q_div(u, d), y: q_div(v, d) });
    lemma_qdot2_div_right(u, v, d, w);
    crate::rat::lemma_qdiv_congr_num(qdot2(w, nvec), q_mul(t, d), d);
    crate::rat::lemma_qdiv_mul_cancel(t, d);
    crate::rat::lemma_mul_pos(w.x.d, u.d);
    crate::rat::lemma_mul_pos(w.y.d, v.d);
    crate::rat::lemma_mul_pos(w.x.d * u.d, w.y.d * v.d);
    crate::rat::lemma_mul_nonzero(qdot2(w, nvec).d, d.n);
    crate::rat::lemma_mul_pos(t.d, d.d);
    crate::rat::lemma_mul_nonzero(t.d * d.d, d.n);
    crate::rat::lemma_q_eq_trans(e, q_div(qdot2(w, nvec), d), q_div(q_mul(t, d), d));
    crate::rat::lemma_q_eq_trans(e, q_div(q_mul(t, d), d), t);
}

/// A column vector of two exact scalars.
#[derive(Clone, Copy)]
pub struct Vec2 {
    pub x: Rat,
    pub y: Rat,
}

/// A column vector of three exact scalars.
#[derive(Clone, Copy)]
pub struct Vec3 {
    pub x: Rat,
    pub y: Rat,
    pub z: Rat,
}

/// A column vector of four exact scalars.
#[derive(Clone, Copy)]
pub struct Vec4 {
    pub x: Rat,
    pub y: Rat,
    pub z: Rat,
    pub w: Rat,
}

impl View for Vec2 {
    type V = QVec2;

    open spec fn view(&self) -> QVec2 {
        QVec2 { x: self.x@, y: self.y@ }
    }
}

impl View for Vec3 {
    type V = QVec3;

    open spec fn view(&self) -> QVec3 {
        QVec3 { x: self.x@, y: self.y@, z: self.z@ }
    }
}

impl View for Vec4 {
    type V = QVec4;

    open spec fn view(&self) -> QVec4 {
        QVec4 { x: self.x@, y: self.y@, z: self.z@, w: self.w@ }
    }
}

impl Vec2 {
    pub open spec fn wf(self) -> bool {
        self.x.wf() && self.y.wf()
    }

    pub fn new(x: Rat, y: Rat) -> (r: Vec2)
        requires
            x.wf(),
            y.wf(),
        ensures
            r.wf(),
            r@ == (QVec2 { x: x@, y: y@ }),
    {
        Vec2 { x, y }
    }

    pub fn add_v(self, other: &Vec2) -> (r: Vec2)
        requires
            self.wf(),
            other.wf(),
            qv2_in_range(qv2_add(self@, other@)),
        ensures
            r.wf(),
            r@ == qv2_add(self@, other@),
    {
        Vec2 { x: self.x.add(other.x), y: self.y.add(other.y) }
    }

    pub fn sub_v(self, other: &Vec2) -> (r: Vec2)
        requires
            self.wf(),
            other.wf(),
            qv2_in_range(qv2_sub(self@, other@)),
        ensures
            r.wf(),
            r@ == qv2_sub(self@, other@),
    {
        Vec2 { x: self.x.sub(other.x), y: self.y.sub(other.y) }
    }

    pub fn mul_t(self, value: Rat) -> (r: Vec2)
        requires
            self.wf(),
            value.wf(),
            qv2_in_range(qv2_scale(self@, value@)),
        ensures
            r.wf(),
            r@ == qv2_scale(self@, value@),
    {
        Vec2 { x: self.x.mul(value), y: self.y.mul(value) }
    }

    pub fn neg(self) -> (r: Vec2)
        requires
            self.wf(),
        ensures
            r.wf(),
            r@ == qv2_neg(self@),
    {
        Vec2 { x: self.x.neg(), y: self.y.neg() }
    }

    pub fn dot(self, other: &Vec2) -> (r: Rat)
        requires
            self.wf(),
            other.wf(),
            qdot2_ok(self@, other@),
        ensures
            r.wf(),
            r@ == qdot2(self@, other@),
    {
        self.x.mul(other.x).add(self.y.mul(other.y))
    }

    pub fn fuzzy_eq(self, other: &Vec2) -> (r: bool)
        requires
            self.wf(),
            other.wf(),
        ensures
            r == qv2_eq(self@, other@),
    {
        self.x.fuzzy_eq(other.x) && self.y.fuzzy_eq(other.y)
    }

    pub fn exact_eq(self, other: &Vec2) -> (r: bool)
        ensures
            r == (self@ == other@),
    {
        self.x.exact_eq(other.x) && self.y.exact_eq(other.y)
    }
}

impl Vec3 {
    pub open spec fn wf(self) -> bool {
        self.x.wf() && self.y.wf() && self.z.wf()
    }

    pub fn new(x: Rat, y: Rat, z: Rat) -> (r: Vec3)
        requires
            x.wf(),
            y.wf(),
            z.wf(),
        ensures
            r.wf(),
            r@ == (QVec3 { x: x@, y: y@, z: z@ }),
    {
        Vec3 { x, y, z }
    }

    pub fn add_v(self, other: &Vec3) -> (r: Vec3)
        requires
            self.wf(),
            other.wf(),
            qv3_in_range(qv3_add(self@, other@)),
        ensures
            r.wf(),
            r@ == qv3_add(self@, other@),
    {
        Vec3 { x: self.x.add(other.x), y: self.y.add(other.y), z: self.z.add(other.z) }
    }

    pub fn sub_v(self, other: &Vec3) -> (r: Vec3)
        requires
            self.wf(),
            other.wf(),
            qv3_in_range(qv3_sub(self@, other@)),
        ensures
            r.wf(),
            r@ == qv3_sub(self@, other@),
    {
        Vec3 { x: self.x.sub(other.x), y: self.y.sub(other.y), z: self.z.sub(other.z) }
    }

    pub fn mul_t(self, value: Rat) -> (r: Vec3)
        requires
            self.wf(),
            value.wf(),
            qv3_in_range(qv3_scale(self@, value@)),
        ensures
            r.wf(),
            r@ == qv3_scale(self@, value@),
    {
        Vec3 { x: self.x.mul(value), y: self.y.mul(value), z: self.z.mul(value) }
    }

    pub fn div_t(self, value: Rat) -> (r: Vec3)
        requires
            self.wf(),
            value.wf(),
            value@.n != 0,
            q_div_ok(self@.x, value@),
            q_div_ok(self@.y, value@),
            q_div_ok(self@.z, value@),
        ensures
            r.wf(),
            qv3_eq(r@, qv3_div(self@, value@)),
    {
        Vec3 { x: self.x.div(value), y: self.y.div(value), z: self.z.div(value) }
    }

    pub fn neg(self) -> (r: Vec3)
        requires
            self.wf(),
        ensures
            r.wf(),
            r@ == qv3_neg(self@),
    {
        Vec3 { x: self.x.neg(), y: self.y.neg(), z: self.z.neg() }
    }

    pub fn dot(self, other: &Vec3) -> (r: Rat)
        requires
            self.wf(),
            other.wf(),
            qdot3_ok(self@, other@),
        ensures
            r.wf(),
            r@ == qdot3(self@, other@),
    {
        self.x.mul(other.x).add(self.y.mul(other.y)).add(self.z.mul(other.z))
    }

    /// Total form of `dot`: `None` exactly when an intermediate would not fit.
    pub fn checked_dot(self, other: &Vec3) -> (r: Option<Rat>)
        requires
            self.wf(),
            other.wf(),
        ensures
            match r {
                Some(v) => v.wf() && v@ == qdot3(self@, other@),
                None => !qdot3_ok(self@, other@),
            },
    {
        let m1 = match self.x.checked_mul(other.x) {
            Some(v) => v,
            None => { return None; },
        };
        let m2 = match self.y.checked_mul(other.y) {
            Some(v) => v,
            None => { return None; },
        };
        let m3 = match self.z.checked_mul(other.z) {
            Some(v) => v,
            None => { return None; },
        };
        let s1 = match m1.checked_add(m2) {
            Some(v) => v,
            None => { return None; },
        };
        s1.checked_add(m3)
    }

    /// Total form of `cross`: `None` exactly when an intermediate would not fit.
    pub fn checked_cross(self, other: &Vec3) -> (r: Option<Vec3>)
        requires
            self.wf(),
            other.wf(),
        ensures
            match r {
                Some(v) => v.wf() && v@ == qcross(self@, other@),
                None => !qcross_ok(self@, other@),
            },
    {
        let ayz = match self.y.checked_mul(other.z) {
            Some(v) => v,
            None => { return None; },
        };
        let azy = match self.z.checked_mul(other.y) {
            Some(v) => v,
            None => { return None; },
        };
        let azx = match self.z.checked_mul(other.x) {
            Some(v) => v,
            None => { return None; },
        };
        let axz = match self.x.checked_mul(other.z) {
            Some(v) => v,
            None => { return None; },
        };
        let axy = match self.x.checked_mul(other.y) {
            Some(v) => v,
            None => { return None; },
        };
        let ayx = match self.y.checked_mul(other.x) {
            Some(v) => v,
            None => { return None; },
        };
        let cx = match ayz.checked_sub(azy) {
            Some(v) => v,
            None => { return None; },
        };
        let cy = match azx.checked_sub(axz) {
            Some(v) => v,
            None => { return None; },
        };
        let cz = match axy.checked_sub(ayx) {
            Some(v) => v,
            None => { return None; },
        };
        Some(Vec3 { x: cx, y: cy, z: cz })
    }

    pub fn cross(self, other: &Vec3) -> (r: Vec3)
        requires
            self.wf(),
            other.wf(),
            qcross_ok(self@, other@),
        ensures
            r.wf(),
            r@ == qcross(self@, other@),
    {
        Vec3 {
            x: self.y.mul(other.z).sub(self.z.mul(other.y)),
            y: self.z.mul(other.x).sub(self.x.mul(other.z)),
            z: self.x.mul(other.y).sub(self.y.mul(other.x)),
        }
    }

    pub fn fuzzy_eq(self, other: &Vec3) -> (r: bool)
        requires
            self.wf(),
            other.wf(),
        ensures
            r == qv3_eq(self@, other@),
    {
        self.x.fuzzy_eq(other.x) && self.y.fuzzy_eq(other.y) && self.z.fuzzy_eq(other.z)
    }

    pub fn exact_eq(self, other: &Vec3) -> (r: bool)
        ensures
            r == (self@ == other@),
    {
        self.x.exact_eq(other.x) && self.y.exact_eq(other.y) && self.z.exact_eq(other.z)
    }
}

impl Vec4 {
    pub open spec fn wf(self) -> bool {
        self.x.wf() && self.y.wf() && self.z.wf() && self.w.wf()
    }

    pub fn new(x: Rat, y: Rat, z: Rat, w: Rat) -> (r: Vec4)
        requires
            x.wf(),
            y.wf(),
            z.wf(),
            w.wf(),
        ensures
            r.wf(),
            r@ == (QVec4 { x: x@, y: y@, z: z@, w: w@ }),
    {
        Vec4 { x, y, z, w }
    }

    pub fn add_v(self, other: &Vec4) -> (r: Vec4)
        requires
            self.wf(),
            other.wf(),
            qv4_in_range(qv4_add(self@, other@)),
        ensures
            r.wf(),
            r@ == qv4_add(self@, other@),
    {
        Vec4 {
            x: self.x.add(other.x),
            y: self.y.add(other.y),
            z: self.z.add(other.z),
            w: self.w.add(other.w),
        }
    }

    pub fn sub_v(self, other: &Vec4) -> (r: Vec4)
        requires
            self.wf(),
            other.wf(),
            qv4_in_range(qv4_sub(self@, other@)),
        ensures
            r.wf(),
            r@ == qv4_sub(self@, other@),
    {
        Vec4 {
            x: self.x.sub(other.x),
            y: self.y.sub(other.y),
            z: self.z.sub(other.z),
            w: self.w.sub(other.w),
        }
    }

    pub fn mul_t(self, value: Rat) -> (r: Vec4)
        requires
            self.wf(),
            value.wf(),
            qv4_in_range(qv4_scale(self@, value@)),
        ensures
            r.wf(),
            r@ == qv4_scale(self@, value@),
    {
        Vec4 {
            x: self.x.mul(value),
            y: self.y.mul(value),
            z: self.z.mul(value),
            w: self.w.mul(value),
        }
    }

    pub fn neg(self) -> (r: Vec4)
        requires
            self.wf(),
        ensures
            r.wf(),
            r@ == qv4_neg(self@),
    {
        Vec4 { x: self.x.neg(), y: self.y.neg(), z: self.z.neg(), w: self.w.neg() }
    }

    pub fn dot(self, other: &Vec4) -> (r: Rat)
        requires
            self.wf(),
            other.wf(),
            qdot4_ok(self@, other@),
        ensures
            r.wf(),
            r@ == qdot4(self@, other@),
    {
        self.x.mul(other.x).add(self.y.mul(other.y)).add(self.z.mul(other.z)).add(
            self.w.mul(other.w),
        )
    }

    /// The `i`-th component.
    pub fn comp(&self, i: usize) -> (r: Rat)
        requires
            i < 4,
        ensures
            r@ == if i == 0 { self@.x } else if i == 1 { self@.y } else if i == 2 { self@.z
            } else { self@.w },
    {
        if i == 0 {
            self.x
        } else if i == 1 {
            self.y
        } else if i == 2 {
            self.z
        } else {
            self.w
        }
    }

    /// Total form of `dot`: `None` exactly when an intermediate would not fit.
    pub fn checked_dot(self, other: &Vec4) -> (r: Option<Rat>)
        requires
            self.wf(),
            other.wf(),
        ensures
            match r {
                Some(v) => v.wf() && v@ == qdot4(self@, other@),
                None => !qdot4_ok(self@, other@),
            },
    {
        let m1 = match self.x.checked_mul(other.x) {
            Some(v) => v,
            None => { return None; },
        };
        let m2 = match self.y.checked_mul(other.y) {
            Some(v) => v,
            None => { return None; },
        };
        let m3 = match self.z.checked_mul(other.z) {
            Some(v) => v,
            None => { return None; },
        };
        let m4 = match self.w.checked_mul(other.w) {
            Some(v) => v,
            None => { return None; },
        };
        let s1 = match m1.checked_add(m2) {
            Some(v) => v,
            None => { return None; },
        };
        let s2 = match s1.checked_add(m3) {
            Some(v) => v,
            None => { return None; },
        };
        s2.checked_add(m4)
    }

    /// Divides every component by the scalar `k`, totally: `None` exactly
    /// when a quotient would not fit, and a present result holds exactly
    /// the lowered quotients.
    pub fn checked_div_t(self, k: Rat) -> (r: Option<Vec4>)
        requires
            self.wf(),
            k.wf(),
            k@.n != 0,
        ensures
            match r {
                Some(v) => v.wf() && v@ == qv4_divred(self@, k@) && qv4_div_ok(self@, k@),
                None => !qv4_div_ok(self@, k@),
            },
    {
        let rx = match self.x.checked_div(k) {
            Some(v) => v,
            None => { return None; },
        };
        let ry = match self.y.checked_div(k) {
            Some(v) => v,
            None => { return None; },
        };
        let rz = match self.z.checked_div(k) {
            Some(v) => v,
            None => { return None; },
        };
        let rw = match self.w.checked_div(k) {
            Some(v) => v,
            None => { return None; },
        };
        Some(Vec4 { x: rx.reduced(), y: ry.reduced(), z: rz.reduced(), w: rw.reduced() })
    }

    /// Subtracts `k` times `u` from this vector, totally: `None` exactly
    /// when an intermediate would not fit, and a present result holds
    /// exactly the lowered differences.
    pub fn checked_sub_scaled(self, u: &Vec4, k: Rat) -> (r: Option<Vec4>)
        requires
            self.wf(),
            u.wf(),
            k.wf(),
        ensures
            match r {
                Some(v) => v.wf() && v@ == qv4_subscaled_red(self@, u@, k@) && qv4_subscaled_ok(
                    self@,
                    u@,
                    k@,
                ),
                None => !qv4_subscaled_ok(self@, u@, k@),
            },
    {
        let sx = match u.x.checked_mul(k) {
            Some(v) => v,
            None => { return None; },
        };
        let sy = match u.y.checked_mul(k) {
            Some(v) => v,
            None => { return None; },
        };
        let sz = match u.z.checked_mul(k) {
            Some(v) => v,
            None => { return None; },
        };
        let sw = match u.w.checked_mul(k) {
            Some(v) => v,
            None => { return None; },
        };
        let rx = match self.x.checked_sub(sx) {
            Some(v) => v,
            None => { return None; },
        };
        let ry = match self.y.checked_sub(sy) {
            Some(v) => v,
            None => { return None; },
        };
        let rz = match self.z.checked_sub(sz) {
            Some(v) => v,
            None => { return None; },
        };
        let rw = match self.w.checked_sub(sw) {
            Some(v) => v,
            None => { return None; },
        };
        Some(Vec4 { x: rx.reduced(), y: ry.reduced(), z: rz.reduced(), w: rw.reduced() })
    }

    pub fn fuzzy_eq(self, other: &Vec4) -> (r: bool)
        requires
            self.wf(),
            other.wf(),
        ensures
            r == qv4_eq(self@, other@),
    {
        self.x.fuzzy_eq(other.x) && self.y.fuzzy_eq(other.y) && self.z.fuzzy_eq(other.z)
            && self.w.fuzzy_eq(other.w)
    }

    pub fn exact_eq(self, other: &Vec4) -> (r: bool)
        ensures
            r == (self@ == other@),
    {
        self.x.exact_eq(other.x) && self.y.exact_eq(other.y) && self.z.exact_eq(other.z)
            && self.w.exact_eq(other.w)
    }
}

} // verus!

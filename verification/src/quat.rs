//! Quaternions, as far as the matrix family needs them: a value of four
//! scalars `(w, x, y, z)`, produced by the 3×3 conversion.

use vstd::prelude::*;
use crate::rat::{Q, Rat};

verus! {

/// Model of a quaternion: four model fractions.
pub struct QQuat {
    pub w: Q,
    pub x: Q,
    pub y: Q,
    pub z: Q,
}

/// A quaternion of exact scalars, components ordered `(w, x, y, z)`.
#[derive(Clone, Copy)]
pub struct Quat {
    pub w: Rat,
    pub x: Rat,
    pub y: Rat,
    pub z: Rat,
}

impl View for Quat {
    type V = QQuat;

    open spec fn view(&self) -> QQuat {
        QQuat { w: self.w@, x: self.x@, y: self.y@, z: self.z@ }
    }
}

impl Quat {
    pub open spec fn wf(self) -> bool {
        self.w.wf() && self.x.wf() && self.y.wf() && self.z.wf()
    }

    pub fn new(w: Rat, x: Rat, y: Rat, z: Rat) -> (r: Quat)
        requires
            w.wf(),
            x.wf(),
            y.wf(),
            z.wf(),
        ensures
            r.wf(),
            r@ == (QQuat { w: w@, x: x@, y: y@, z: z@ }),
    {
        Quat { w, x, y, z }
    }
}

} // verus!

//! A quaternion-like four-component value.
//!
//! Blending a composite value applies the scalar blend to each component
//! independently; nothing here multiplies two composite values together.

use crate::blend::Blendable;
use crate::blend::Rational;
use crate::rat::rat_add;
use crate::rat::rat_eq;
use crate::rat::rat_mul;
use crate::rat::rat_wf;
use crate::rat::Rat;
use vstd::prelude::*;

verus! {

/// A four-component composite value: the vector parts `i`, `j`, `k` and
/// the scalar part `w`.  The identity rotation is `w = 1` with the vector
/// parts zero.
#[derive(Clone, Copy, Debug, PartialEq, Eq, Structural)]
pub struct Quat {
    pub i: Rational,
    pub j: Rational,
    pub k: Rational,
    pub w: Rational,
}

impl Blendable for Quat {
    open spec fn wf(self) -> bool {
        &&& self.i.wf()
        &&& self.j.wf()
        &&& self.k.wf()
        &&& self.w.wf()
    }

    open spec fn model(self) -> Seq<Rat> {
        seq![self.i.as_rat(), self.j.as_rat(), self.k.as_rat(), self.w.as_rat()]
    }

    open spec fn scaled(self, f: Rational) -> Quat {
        Quat {
            i: self.i.scaled(f),
            j: self.j.scaled(f),
            k: self.k.scaled(f),
            w: self.w.scaled(f),
        }
    }

    open spec fn can_scale(self, f: Rational) -> bool {
        &&& self.i.can_scale(f)
        &&& self.j.can_scale(f)
        &&& self.k.can_scale(f)
        &&& self.w.can_scale(f)
    }

    open spec fn can_plus(self, other: Quat) -> bool {
        &&& self.i.can_plus(other.i)
        &&& self.j.can_plus(other.j)
        &&& self.k.can_plus(other.k)
        &&& self.w.can_plus(other.w)
    }

    proof fn lemma_model_wf(self) {
        assert forall|n: int| 0 <= n < self.model().len() implies rat_wf(
            #[trigger] self.model()[n],
        ) by {
            if n == 0 {
                assert(self.model()[0] == self.i.as_rat());
            } else if n == 1 {
                assert(self.model()[1] == self.j.as_rat());
            } else if n == 2 {
                assert(self.model()[2] == self.k.as_rat());
            } else {
                assert(self.model()[3] == self.w.as_rat());
            }
        }
    }

    fn plus(self, other: Quat) -> (r: Quat) {
        let r = Quat {
            i: self.i.plus(other.i),
            j: self.j.plus(other.j),
            k: self.k.plus(other.k),
            w: self.w.plus(other.w),
        };
        proof {
            assert(r.i.model()[0] == r.i.as_rat());
            assert(r.j.model()[0] == r.j.as_rat());
            assert(r.k.model()[0] == r.k.as_rat());
            assert(r.w.model()[0] == r.w.as_rat());
            assert forall|n: int| 0 <= n < self.model().len() implies rat_eq(
                #[trigger] r.model()[n],
                rat_add(self.model()[n], other.model()[n]),
            ) by {
                if n == 0 {
                    assert(rat_eq(r.i.model()[0], rat_add(self.i.model()[0], other.i.model()[0])));
                } else if n == 1 {
                    assert(rat_eq(r.j.model()[0], rat_add(self.j.model()[0], other.j.model()[0])));
                } else if n == 2 {
                    assert(rat_eq(r.k.model()[0], rat_add(self.k.model()[0], other.k.model()[0])));
                } else {
                    assert(rat_eq(r.w.model()[0], rat_add(self.w.model()[0], other.w.model()[0])));
                }
            }
        }
        r
    }

    fn scale(self, f: Rational) -> (r: Quat) {
        let r = Quat {
            i: self.i.scale(f),
            j: self.j.scale(f),
            k: self.k.scale(f),
            w: self.w.scale(f),
        };
        proof {
            assert(r.i.model()[0] == r.i.as_rat());
            assert(r.j.model()[0] == r.j.as_rat());
            assert(r.k.model()[0] == r.k.as_rat());
            assert(r.w.model()[0] == r.w.as_rat());
            assert forall|n: int| 0 <= n < self.model().len() implies rat_eq(
                #[trigger] r.model()[n],
                rat_mul(self.model()[n], f.as_rat()),
            ) by {
                if n == 0 {
                    assert(rat_eq(r.i.model()[0], rat_mul(self.i.model()[0], f.as_rat())));
                } else if n == 1 {
                    assert(rat_eq(r.j.model()[0], rat_mul(self.j.model()[0], f.as_rat())));
                } else if n == 2 {
                    assert(rat_eq(r.k.model()[0], rat_mul(self.k.model()[0], f.as_rat())));
                } else {
                    assert(rat_eq(r.w.model()[0], rat_mul(self.w.model()[0], f.as_rat())));
                }
            }
        }
        r
    }
}

} // verus!

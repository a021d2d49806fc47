//! The numeric contract and the interpolator.
//!
//! `Blendable` is the capability set a value type needs for blending:
//! componentwise addition of two values and scaling of a value by a
//! fraction.  `lerp` computes `a * (1 - alpha) + b * alpha` over any such
//! type, and its contract pins the result down componentwise against the
//! exact rational model.

use crate::rat::lemma_rat_add_congruence;
use crate::rat::lemma_rat_eq_trans;
use crate::rat::lemma_rat_mul_congruence;
use crate::rat::lemma_rat_ops_wf;
use crate::rat::rat_add;
use crate::rat::rat_eq;
use crate::rat::rat_int;
use crate::rat::rat_le;
use crate::rat::rat_mul;
use crate::rat::rat_sub;
use crate::rat::rat_wf;
use crate::rat::Rat;
use vstd::prelude::*;

verus! {

/// An exact rational scalar: `num / den`.
///
/// It serves both as the blend fraction handed to `lerp` and the filter,
/// and as the simplest conforming value type.  A `Rational` is well formed
/// when its denominator is positive; the numerator is unconstrained, so
/// fractions outside `[0, 1]` are representable and extrapolate rather
/// than interpolate.
#[derive(Clone, Copy, Debug, PartialEq, Eq, Structural)]
pub struct Rational {
    pub num: i64,
    pub den: i64,
}

impl Rational {
    /// The mathematical value of this scalar.
    pub open spec fn as_rat(self) -> Rat {
        Rat { num: self.num as int, den: self.den as int }
    }

    /// The complement `1 - self`, as a value.
    pub open spec fn complemented(self) -> Rational {
        Rational { num: ((self.den - self.num) as i64), den: self.den }
    }

    /// The complement's numerator stays within the machine integers.
    pub open spec fn complement_fits(self) -> bool {
        i64::MIN <= self.den - self.num <= i64::MAX
    }

    /// The complementary fraction `1 - self`, exactly.
    pub fn complement(self) -> (r: Rational)
        requires
            0 < self.den,
            self.complement_fits(),
        ensures
            r == self.complemented(),
            0 < r.den,
            rat_eq(r.as_rat(), rat_sub(rat_int(1), self.as_rat())),
    {
        let r = Rational { num: self.den - self.num, den: self.den };
        proof {
            assert(r.as_rat().num * rat_sub(rat_int(1), self.as_rat()).den == rat_sub(
                rat_int(1),
                self.as_rat(),
            ).num * r.as_rat().den) by (nonlinear_arith)
                requires
                    r.num == self.den - self.num,
                    r.den == self.den;
        }
        r
    }
}

/// The capability set of a conforming value type: a well-formedness
/// condition, a componentwise rational model, and exact addition and
/// scaling against that model.
///
/// The blend formulas use only these two operations; nothing further is
/// demanded of a conforming type.
pub trait Blendable: Sized + Copy {
    /// The value is internally well formed.
    spec fn wf(self) -> bool;

    /// The components of the value, as mathematical rationals.
    spec fn model(self) -> Seq<Rat>;

    /// The value scaled by the fraction `f`, as a value.  `scale` returns
    /// exactly this, so that a caller can state when two scaled values may
    /// in turn be added.
    spec fn scaled(self, f: Rational) -> Self;

    /// The products formed by `scale(f)` stay within the machine integers.
    spec fn can_scale(self, f: Rational) -> bool;

    /// The products and sums formed by `plus(other)` stay within the
    /// machine integers.
    spec fn can_plus(self, other: Self) -> bool;

    /// Every component of a well-formed value is a well-formed rational.
    proof fn lemma_model_wf(self)
        requires
            self.wf(),
        ensures
            forall|n: int|
                0 <= n < self.model().len() ==> rat_wf(#[trigger] self.model()[n]),
    ;

    /// Componentwise exact addition.
    fn plus(self, other: Self) -> (r: Self)
        requires
            self.wf(),
            other.wf(),
            self.model().len() == other.model().len(),
            self.can_plus(other),
        ensures
            r.wf(),
            r.model().len() == self.model().len(),
            forall|n: int|
                0 <= n < self.model().len() ==> rat_eq(
                    #[trigger] r.model()[n],
                    rat_add(self.model()[n], other.model()[n]),
                ),
    ;

    /// Componentwise exact scaling by a fraction.
    fn scale(self, f: Rational) -> (r: Self)
        requires
            self.wf(),
            0 < f.den,
            self.can_scale(f),
        ensures
            r == self.scaled(f),
            r.wf(),
            r.model().len() == self.model().len(),
            forall|n: int|
                0 <= n < self.model().len() ==> rat_eq(
                    #[trigger] r.model()[n],
                    rat_mul(self.model()[n], f.as_rat()),
                ),
    ;
}

impl Blendable for Rational {
    open spec fn wf(self) -> bool {
        0 < self.den
    }

    open spec fn model(self) -> Seq<Rat> {
        seq![self.as_rat()]
    }

    open spec fn scaled(self, f: Rational) -> Rational {
        Rational { num: ((self.num * f.num) as i64), den: ((self.den * f.den) as i64) }
    }

    open spec fn can_scale(self, f: Rational) -> bool {
        &&& i64::MIN <= self.num * f.num <= i64::MAX
        &&& 0 < self.den * f.den <= i64::MAX
    }

    open spec fn can_plus(self, other: Rational) -> bool {
        &&& i64::MIN <= self.num * other.den <= i64::MAX
        &&& i64::MIN <= other.num * self.den <= i64::MAX
        &&& i64::MIN <= self.num * other.den + other.num * self.den <= i64::MAX
        &&& 0 < self.den * other.den <= i64::MAX
    }

    proof fn lemma_model_wf(self) {
    }

    fn plus(self, other: Rational) -> (r: Rational) {
        Rational { num: self.num * other.den + other.num * self.den, den: self.den * other.den }
    }

    fn scale(self, f: Rational) -> (r: Rational) {
        Rational { num: self.num * f.num, den: self.den * f.den }
    }
}

/// The exact value of linear interpolation: `a * (1 - alpha) + b * alpha`.
pub open spec fn lerp_rat(a: Rat, b: Rat, alpha: Rat) -> Rat {
    rat_add(rat_mul(a, rat_sub(rat_int(1), alpha)), rat_mul(b, alpha))
}

/// Linear interpolation between `a` and `b` at fraction `alpha`:
/// `a * (1 - alpha) + b * alpha`, componentwise and exact.
///
/// `alpha` is not confined to `[0, 1]`; a fraction outside that range is
/// accepted and extrapolates.  The scalings and the sum must stay within
/// the machine integers, which the `can_scale` and `can_plus` premises
/// state.
pub fn lerp<T: Blendable>(a: T, b: T, alpha: Rational) -> (r: T)
    requires
        a.wf(),
        b.wf(),
        0 < alpha.den,
        a.model().len() == b.model().len(),
        alpha.complement_fits(),
        a.can_scale(alpha.complemented()),
        b.can_scale(alpha),
        a.scaled(alpha.complemented()).can_plus(b.scaled(alpha)),
    ensures
        r.wf(),
        r.model().len() == a.model().len(),
        forall|n: int|
            0 <= n < a.model().len() ==> rat_eq(
                #[trigger] r.model()[n],
                lerp_rat(a.model()[n], b.model()[n], alpha.as_rat()),
            ),
{
    let c = alpha.complement();
    let sa = a.scale(c);
    let sb = b.scale(alpha);
    let r = sa.plus(sb);
    proof {
        a.lemma_model_wf();
        b.lemma_model_wf();
        sa.lemma_model_wf();
        sb.lemma_model_wf();
        r.lemma_model_wf();
        let al = alpha.as_rat();
        let cm = c.as_rat();
        let one_less = rat_sub(rat_int(1), al);
        lemma_rat_ops_wf(rat_int(1), al);
        assert forall|n: int| 0 <= n < a.model().len() implies rat_eq(
            r.model()[n],
            lerp_rat(a.model()[n], b.model()[n], al),
        ) by {
            let an = a.model()[n];
            let bn = b.model()[n];
            lemma_rat_ops_wf(an, cm);
            lemma_rat_ops_wf(an, one_less);
            lemma_rat_ops_wf(bn, al);
            lemma_rat_mul_congruence(an, cm, an, one_less);
            lemma_rat_eq_trans(sa.model()[n], rat_mul(an, cm), rat_mul(an, one_less));
            lemma_rat_ops_wf(sa.model()[n], sb.model()[n]);
            lemma_rat_ops_wf(rat_mul(an, one_less), rat_mul(bn, al));
            lemma_rat_add_congruence(
                sa.model()[n],
                sb.model()[n],
                rat_mul(an, one_less),
                rat_mul(bn, al),
            );
            lemma_rat_eq_trans(
                r.model()[n],
                rat_add(sa.model()[n], sb.model()[n]),
                rat_add(rat_mul(an, one_less), rat_mul(bn, al)),
            );
        }
    }
    r
}

/// At fraction `0`, interpolation returns the first value exactly; at
/// fraction `1`, the second.
pub proof fn lemma_lerp_endpoints(a: Rat, b: Rat)
    requires
        rat_wf(a),
        rat_wf(b),
    ensures
        rat_eq(lerp_rat(a, b, rat_int(0)), a),
        rat_eq(lerp_rat(a, b, rat_int(1)), b),
{
    let z = rat_int(0);
    let l0 = lerp_rat(a, b, z);
    assert(l0.num * a.den == a.num * l0.den) by (nonlinear_arith)
        requires
            l0.num == (a.num * (z.den - z.num)) * (b.den * z.den) + (b.num * z.num) * (a.den
                * z.den),
            l0.den == (a.den * z.den) * (b.den * z.den),
            z.num == 0,
            z.den == 1;
    let o = rat_int(1);
    let l1 = lerp_rat(a, b, o);
    assert(l1.num * b.den == b.num * l1.den) by (nonlinear_arith)
        requires
            l1.num == (a.num * (o.den - o.num)) * (b.den * o.den) + (b.num * o.num) * (a.den
                * o.den),
            l1.den == (a.den * o.den) * (b.den * o.den),
            o.num == 1,
            o.den == 1;
}

/// For a fraction in `[0, 1]`, interpolation lies between its endpoints,
/// inclusive, whichever of the two is the smaller.
pub proof fn lemma_lerp_between(a: Rat, b: Rat, alpha: Rat)
    requires
        rat_wf(a),
        rat_wf(b),
        rat_wf(alpha),
        rat_le(rat_int(0), alpha),
        rat_le(alpha, rat_int(1)),
    ensures
        rat_le(a, b) ==> rat_le(a, lerp_rat(a, b, alpha)) && rat_le(lerp_rat(a, b, alpha), b),
        rat_le(b, a) ==> rat_le(b, lerp_rat(a, b, alpha)) && rat_le(lerp_rat(a, b, alpha), a),
{
    let l = lerp_rat(a, b, alpha);
    let p = alpha.num;
    let q = alpha.den;
    assert(l.num == (a.num * (q - p)) * (b.den * q) + (b.num * p) * (a.den * q));
    assert(l.den == (a.den * q) * (b.den * q));
    if rat_le(a, b) {
        assert(a.num * l.den <= l.num * a.den) by (nonlinear_arith)
            requires
                l.num == (a.num * (q - p)) * (b.den * q) + (b.num * p) * (a.den * q),
                l.den == (a.den * q) * (b.den * q),
                0 < a.den,
                0 < b.den,
                0 < q,
                0 <= p,
                p <= q,
                a.num * b.den <= b.num * a.den;
        assert(l.num * b.den <= b.num * l.den) by (nonlinear_arith)
            requires
                l.num == (a.num * (q - p)) * (b.den * q) + (b.num * p) * (a.den * q),
                l.den == (a.den * q) * (b.den * q),
                0 < a.den,
                0 < b.den,
                0 < q,
                0 <= p,
                p <= q,
                a.num * b.den <= b.num * a.den;
    }
    if rat_le(b, a) {
        assert(b.num * l.den <= l.num * b.den) by (nonlinear_arith)
            requires
                l.num == (a.num * (q - p)) * (b.den * q) + (b.num * p) * (a.den * q),
                l.den == (a.den * q) * (b.den * q),
                0 < a.den,
                0 < b.den,
                0 < q,
                0 <= p,
                p <= q,
                b.num * a.den <= a.num * b.den;
        assert(l.num * a.den <= a.num * l.den) by (nonlinear_arith)
            requires
                l.num == (a.num * (q - p)) * (b.den * q) + (b.num * p) * (a.den * q),
                l.den == (a.den * q) * (b.den * q),
                0 < a.den,
                0 < b.den,
                0 < q,
                0 <= p,
                p <= q,
                b.num * a.den <= a.num * b.den;
    }
}

} // verus!

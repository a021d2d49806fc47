//! The complementary filter.
//!
//! A first-order state estimator: it keeps one prior value and blends each
//! new measurement into it with a fixed fraction.  The update computes
//! `value * alpha + current * (1 - alpha)` — the mirror of the
//! interpolator's operand order, because here `alpha` weights the new
//! measurement, not the prior value.

use crate::blend::lerp_rat;
use crate::blend::Blendable;
use crate::blend::Rational;
use crate::rat::lemma_rat_add_comm;
use crate::rat::lemma_rat_add_congruence;
use crate::rat::lemma_rat_eq_trans;
use crate::rat::lemma_rat_mul_assoc;
use crate::rat::lemma_rat_mul_congruence;
use crate::rat::lemma_rat_ops_wf;
use crate::rat::lemma_rat_pow_wf;
use crate::rat::rat_add;
use crate::rat::rat_eq;
use crate::rat::rat_int;
use crate::rat::rat_mul;
use crate::rat::rat_pow;
use crate::rat::rat_sub;
use crate::rat::rat_wf;
use crate::rat::Rat;
use vstd::prelude::*;

verus! {

/// The exact value of one filter update:
/// `meas * alpha + prev * (1 - alpha)`.
pub open spec fn step_rat(prev: Rat, meas: Rat, alpha: Rat) -> Rat {
    rat_add(rat_mul(meas, alpha), rat_mul(prev, rat_sub(rat_int(1), alpha)))
}

/// The estimate after feeding the same measurement `meas` into the filter
/// `n` times, starting from the estimate `start`.
pub open spec fn repeated_step(start: Rat, meas: Rat, alpha: Rat, n: nat) -> Rat
    decreases n,
{
    if n == 0 {
        start
    } else {
        step_rat(repeated_step(start, meas, alpha, (n - 1) as nat), meas, alpha)
    }
}

/// A first-order complementary filter: one running estimate and the blend
/// fraction `alpha`, the trust placed in each new measurement.
///
/// `alpha` is stored as handed in.  Nominally it lies in `[0, 1]`, but the
/// filter neither checks nor corrects it — a caller wanting validation
/// enforces it outside — and a fraction outside that range extrapolates.
/// After any update the estimate equals the value that the update
/// returned; there is no history beyond that one value.
#[derive(Clone, Copy)]
pub struct ComplementaryFilter<T: Blendable> {
    /// The estimate left by the most recent update.
    pub current_value: T,
    /// The weight of the next measurement.
    pub alpha: Rational,
}

impl<T: Blendable> ComplementaryFilter<T> {
    /// The filter is well formed: its estimate is, and its fraction's
    /// denominator is positive.
    pub open spec fn wf(self) -> bool {
        self.current_value.wf() && 0 < self.alpha.den
    }

    /// Creates a filter holding `initial_value` and `alpha`, verbatim.
    pub fn new(initial_value: T, alpha: Rational) -> (r: Self)
        requires
            initial_value.wf(),
            0 < alpha.den,
        ensures
            r.wf(),
            r.current_value == initial_value,
            r.alpha == alpha,
    {
        ComplementaryFilter { current_value: initial_value, alpha: alpha }
    }

    /// Replaces the blend fraction, unconditionally.
    ///
    /// Only future updates are affected: the estimate is untouched, so a
    /// result already returned by an earlier update keeps its value.
    pub fn set_alpha(&mut self, new_alpha: Rational)
        requires
            old(self).wf(),
            0 < new_alpha.den,
        ensures
            final(self).wf(),
            final(self).alpha == new_alpha,
            final(self).current_value == old(self).current_value,
    {
        self.alpha = new_alpha;
    }

    /// Folds the measurement `value` into the estimate and returns the new
    /// estimate: componentwise exactly
    /// `value * alpha + current_value * (1 - alpha)`.
    ///
    /// The new estimate replaces the old one, so the filter never diverges
    /// from the last value it returned.
    pub fn predict_next(&mut self, value: T) -> (r: T)
        requires
            old(self).wf(),
            value.wf(),
            value.model().len() == old(self).current_value.model().len(),
            old(self).alpha.complement_fits(),
            value.can_scale(old(self).alpha),
            old(self).current_value.can_scale(old(self).alpha.complemented()),
            value.scaled(old(self).alpha).can_plus(
                old(self).current_value.scaled(old(self).alpha.complemented()),
            ),
        ensures
            final(self).wf(),
            final(self).alpha == old(self).alpha,
            r == final(self).current_value,
            r.wf(),
            r.model().len() == value.model().len(),
            forall|n: int|
                0 <= n < value.model().len() ==> rat_eq(
                    #[trigger] r.model()[n],
                    step_rat(
                        old(self).current_value.model()[n],
                        value.model()[n],
                        old(self).alpha.as_rat(),
                    ),
                ),
    {
        let c = self.alpha.complement();
        let sm = value.scale(self.alpha);
        let sp = self.current_value.scale(c);
        let y = sm.plus(sp);
        proof {
            value.lemma_model_wf();
            old(self).current_value.lemma_model_wf();
            sm.lemma_model_wf();
            sp.lemma_model_wf();
            y.lemma_model_wf();
            let al = self.alpha.as_rat();
            let cm = c.as_rat();
            let one_less = rat_sub(rat_int(1), al);
            lemma_rat_ops_wf(rat_int(1), al);
            assert forall|n: int| 0 <= n < value.model().len() implies rat_eq(
                y.model()[n],
                step_rat(old(self).current_value.model()[n], value.model()[n], al),
            ) by {
                let pn = old(self).current_value.model()[n];
                let mn = value.model()[n];
                lemma_rat_ops_wf(pn, cm);
                lemma_rat_ops_wf(pn, one_less);
                lemma_rat_ops_wf(mn, al);
                lemma_rat_mul_congruence(pn, cm, pn, one_less);
                lemma_rat_eq_trans(sp.model()[n], rat_mul(pn, cm), rat_mul(pn, one_less));
                lemma_rat_ops_wf(sm.model()[n], sp.model()[n]);
                lemma_rat_ops_wf(rat_mul(mn, al), rat_mul(pn, one_less));
                lemma_rat_add_congruence(
                    sm.model()[n],
                    sp.model()[n],
                    rat_mul(mn, al),
                    rat_mul(pn, one_less),
                );
                lemma_rat_eq_trans(
                    y.model()[n],
                    rat_add(sm.model()[n], sp.model()[n]),
                    rat_add(rat_mul(mn, al), rat_mul(pn, one_less)),
                );
            }
        }
        self.current_value = y;
        y
    }
}

/// A fraction of `0` leaves the estimate unchanged — the measurement is
/// fully ignored; a fraction of `1` returns the measurement — the prior
/// estimate is fully discarded.
pub proof fn lemma_step_endpoints(prev: Rat, meas: Rat)
    requires
        rat_wf(prev),
        rat_wf(meas),
    ensures
        rat_eq(step_rat(prev, meas, rat_int(0)), prev),
        rat_eq(step_rat(prev, meas, rat_int(1)), meas),
{
    let z = rat_int(0);
    let s0 = step_rat(prev, meas, z);
    assert(s0.num * prev.den == prev.num * s0.den) by (nonlinear_arith)
        requires
            s0.num == (meas.num * z.num) * (prev.den * z.den) + (prev.num * (z.den - z.num)) * (
            meas.den * z.den),
            s0.den == (meas.den * z.den) * (prev.den * z.den),
            z.num == 0,
            z.den == 1;
    let o = rat_int(1);
    let s1 = step_rat(prev, meas, o);
    assert(s1.num * meas.den == meas.num * s1.den) by (nonlinear_arith)
        requires
            s1.num == (meas.num * o.num) * (prev.den * o.den) + (prev.num * (o.den - o.num)) * (
            meas.den * o.den),
            s1.den == (meas.den * o.den) * (prev.den * o.den),
            o.num == 1,
            o.den == 1;
}

/// The filter's update equals interpolation from the prior estimate toward
/// the measurement: the two formulas scale mirror operands, and for these
/// value types — where addition commutes exactly — the result is the same.
pub proof fn lemma_step_matches_lerp(prev: Rat, meas: Rat, alpha: Rat)
    ensures
        step_rat(prev, meas, alpha) == lerp_rat(prev, meas, alpha),
{
    lemma_rat_add_comm(rat_mul(meas, alpha), rat_mul(prev, rat_sub(rat_int(1), alpha)));
}

/// One update moves the estimate toward the measurement by the factor
/// `1 - alpha`: the residual `meas - step` equals
/// `(1 - alpha) * (meas - prev)` exactly.
pub proof fn lemma_step_residual(prev: Rat, meas: Rat, alpha: Rat)
    requires
        rat_wf(prev),
        rat_wf(meas),
        rat_wf(alpha),
    ensures
        rat_eq(
            rat_sub(meas, step_rat(prev, meas, alpha)),
            rat_mul(rat_sub(rat_int(1), alpha), rat_sub(meas, prev)),
        ),
{
    let p = alpha.num;
    let q = alpha.den;
    let mn = meas.num;
    let md = meas.den;
    let vn = prev.num;
    let vd = prev.den;
    let x = mn * vd;
    let y = vn * md;
    let s = step_rat(prev, meas, alpha);
    assert(s.num == (mn * p) * (vd * q) + (vn * (q - p)) * (md * q));
    assert(s.den == (md * q) * (vd * q));
    let l = rat_sub(meas, s);
    let r = rat_mul(rat_sub(rat_int(1), alpha), rat_sub(meas, prev));
    assert(r.num == (q - p) * (x - y));
    assert(r.den == q * (md * vd));
    assert(s.num * md == ((mn * p) * (vd * q)) * md + ((vn * (q - p)) * (md * q)) * md)
        by (nonlinear_arith)
        requires
            s.num == (mn * p) * (vd * q) + (vn * (q - p)) * (md * q);
    assert(mn * ((md * q) * (vd * q)) == (md * q) * (q * x)) by (nonlinear_arith)
        requires
            x == mn * vd;
    assert(((mn * p) * (vd * q)) * md == (md * q) * (p * x)) by (nonlinear_arith)
        requires
            x == mn * vd;
    assert(((vn * (q - p)) * (md * q)) * md == (md * q) * ((q - p) * y)) by (nonlinear_arith)
        requires
            y == vn * md;
    assert((md * q) * (q * x) - ((md * q) * (p * x) + (md * q) * ((q - p) * y)) == (md * q) * ((q
        - p) * (x - y))) by (nonlinear_arith);
    assert(l.num == (md * q) * ((q - p) * (x - y)));
    assert(l.num * r.den == r.num * l.den) by (nonlinear_arith)
        requires
            l.num == (md * q) * ((q - p) * (x - y)),
            l.den == md * ((md * q) * (vd * q)),
            r.num == (q - p) * (x - y),
            r.den == q * (md * vd);
}

/// Feeding the same measurement into the filter over and over converges
/// geometrically: after `n` updates the remaining distance to the
/// measurement is exactly `(1 - alpha)^n` times the starting distance.
pub proof fn lemma_geometric_convergence(start: Rat, meas: Rat, alpha: Rat, n: nat)
    requires
        rat_wf(start),
        rat_wf(meas),
        rat_wf(alpha),
    ensures
        rat_wf(repeated_step(start, meas, alpha, n)),
        rat_eq(
            rat_sub(meas, repeated_step(start, meas, alpha, n)),
            rat_mul(rat_pow(rat_sub(rat_int(1), alpha), n), rat_sub(meas, start)),
        ),
    decreases n,
{
    let c = rat_sub(rat_int(1), alpha);
    let d = rat_sub(meas, start);
    lemma_rat_ops_wf(rat_int(1), alpha);
    lemma_rat_ops_wf(meas, start);
    if n == 0 {
        let l = rat_sub(meas, start);
        let r = rat_mul(rat_int(1), l);
        assert(l.num * r.den == r.num * l.den) by (nonlinear_arith)
            requires
                r.num == 1 * l.num,
                r.den == 1 * l.den;
    } else {
        let m = (n - 1) as nat;
        let prev = repeated_step(start, meas, alpha, m);
        let powm = rat_pow(c, m);
        lemma_geometric_convergence(start, meas, alpha, m);
        lemma_rat_pow_wf(c, m);
        lemma_rat_ops_wf(meas, alpha);
        lemma_rat_ops_wf(prev, c);
        lemma_rat_ops_wf(rat_mul(meas, alpha), rat_mul(prev, c));
        lemma_step_residual(prev, meas, alpha);
        lemma_rat_ops_wf(meas, prev);
        lemma_rat_ops_wf(powm, d);
        lemma_rat_mul_congruence(c, rat_sub(meas, prev), c, rat_mul(powm, d));
        lemma_rat_mul_assoc(c, powm, d);
        lemma_rat_ops_wf(meas, repeated_step(start, meas, alpha, n));
        lemma_rat_ops_wf(c, rat_sub(meas, prev));
        lemma_rat_ops_wf(c, rat_mul(powm, d));
        lemma_rat_eq_trans(
            rat_sub(meas, repeated_step(start, meas, alpha, n)),
            rat_mul(c, rat_sub(meas, prev)),
            rat_mul(c, rat_mul(powm, d)),
        );
    }
}

} // verus!

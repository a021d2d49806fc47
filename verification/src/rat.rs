//! Exact rational numbers at the specification level.
//!
//! Executable values in this crate carry integer numerators and
//! denominators; their mathematical meaning is a `Rat`.  Contracts are
//! stated over `Rat`, with equality by cross-multiplication (`rat_eq`), so
//! no contract ever divides.

use vstd::prelude::*;

verus! {

/// A mathematical rational number `num / den`, for specifications only.
pub struct Rat {
    pub num: int,
    pub den: int,
}

/// Well-formed: the denominator is positive.
pub open spec fn rat_wf(a: Rat) -> bool {
    0 < a.den
}

/// `a == b` as rationals, stated without division by cross-multiplying.
pub open spec fn rat_eq(a: Rat, b: Rat) -> bool {
    a.num * b.den == b.num * a.den
}

/// `a <= b` as rationals (meaningful when both are well formed).
pub open spec fn rat_le(a: Rat, b: Rat) -> bool {
    a.num * b.den <= b.num * a.den
}

/// Exact sum.
pub open spec fn rat_add(a: Rat, b: Rat) -> Rat {
    Rat { num: a.num * b.den + b.num * a.den, den: a.den * b.den }
}

/// Exact difference.
pub open spec fn rat_sub(a: Rat, b: Rat) -> Rat {
    Rat { num: a.num * b.den - b.num * a.den, den: a.den * b.den }
}

/// Exact product.
pub open spec fn rat_mul(a: Rat, b: Rat) -> Rat {
    Rat { num: a.num * b.num, den: a.den * b.den }
}

/// The integer `i` as a rational.
pub open spec fn rat_int(i: int) -> Rat {
    Rat { num: i, den: 1 }
}

/// `a` to the power `n`.
pub open spec fn rat_pow(a: Rat, n: nat) -> Rat
    decreases n,
{
    if n == 0 {
        rat_int(1)
    } else {
        rat_mul(a, rat_pow(a, (n - 1) as nat))
    }
}

/// The sum, difference and product of well-formed rationals are well formed.
pub proof fn lemma_rat_ops_wf(a: Rat, b: Rat)
    requires
        rat_wf(a),
        rat_wf(b),
    ensures
        rat_wf(rat_add(a, b)),
        rat_wf(rat_sub(a, b)),
        rat_wf(rat_mul(a, b)),
{
    assert(0 < a.den * b.den) by (nonlinear_arith)
        requires
            0 < a.den,
            0 < b.den;
}

/// Every power of a well-formed rational is well formed.
pub proof fn lemma_rat_pow_wf(a: Rat, n: nat)
    requires
        rat_wf(a),
    ensures
        rat_wf(rat_pow(a, n)),
    decreases n,
{
    if n != 0 {
        lemma_rat_pow_wf(a, (n - 1) as nat);
        lemma_rat_ops_wf(a, rat_pow(a, (n - 1) as nat));
    }
}

/// Addition of rationals is commutative, up to structural equality.
pub proof fn lemma_rat_add_comm(a: Rat, b: Rat)
    ensures
        rat_add(a, b) == rat_add(b, a),
{
    assert(a.den * b.den == b.den * a.den) by (nonlinear_arith);
}

/// `rat_eq` is transitive over well-formed rationals.
pub proof fn lemma_rat_eq_trans(a: Rat, b: Rat, c: Rat)
    requires
        rat_wf(a),
        rat_wf(b),
        rat_wf(c),
        rat_eq(a, b),
        rat_eq(b, c),
    ensures
        rat_eq(a, c),
{
    assert(a.num * c.den == c.num * a.den) by (nonlinear_arith)
        requires
            0 < b.den,
            a.num * b.den == b.num * a.den,
            b.num * c.den == c.num * b.den;
}

/// Addition respects `rat_eq`: replacing either operand by an equal
/// rational gives an equal sum.
pub proof fn lemma_rat_add_congruence(a: Rat, b: Rat, a2: Rat, b2: Rat)
    requires
        rat_wf(a),
        rat_wf(b),
        rat_wf(a2),
        rat_wf(b2),
        rat_eq(a, a2),
        rat_eq(b, b2),
    ensures
        rat_eq(rat_add(a, b), rat_add(a2, b2)),
{
    assert((a.num * b.den + b.num * a.den) * (a2.den * b2.den) == (a.num * b.den) * (a2.den
        * b2.den) + (b.num * a.den) * (a2.den * b2.den)) by (nonlinear_arith);
    assert((a.num * b.den) * (a2.den * b2.den) == (a2.num * b2.den) * (a.den * b.den))
        by (nonlinear_arith)
        requires
            a.num * a2.den == a2.num * a.den;
    assert((b.num * a.den) * (a2.den * b2.den) == (b2.num * a2.den) * (a.den * b.den))
        by (nonlinear_arith)
        requires
            b.num * b2.den == b2.num * b.den;
    assert((a2.num * b2.den) * (a.den * b.den) + (b2.num * a2.den) * (a.den * b.den) == (a2.num
        * b2.den + b2.num * a2.den) * (a.den * b.den)) by (nonlinear_arith);
}

/// Multiplication respects `rat_eq`.
pub proof fn lemma_rat_mul_congruence(a: Rat, b: Rat, a2: Rat, b2: Rat)
    requires
        rat_wf(a),
        rat_wf(b),
        rat_wf(a2),
        rat_wf(b2),
        rat_eq(a, a2),
        rat_eq(b, b2),
    ensures
        rat_eq(rat_mul(a, b), rat_mul(a2, b2)),
{
    assert((a.num * b.num) * (a2.den * b2.den) == (a2.num * b2.num) * (a.den * b.den))
        by (nonlinear_arith)
        requires
            a.num * a2.den == a2.num * a.den,
            b.num * b2.den == b2.num * b.den;
}

/// Multiplication of rationals is associative, up to structural equality.
pub proof fn lemma_rat_mul_assoc(a: Rat, b: Rat, c: Rat)
    ensures
        rat_mul(a, rat_mul(b, c)) == rat_mul(rat_mul(a, b), c),
{
    assert(a.num * (b.num * c.num) == (a.num * b.num) * c.num) by (nonlinear_arith);
    assert(a.den * (b.den * c.den) == (a.den * b.den) * c.den) by (nonlinear_arith);
}

} // verus!

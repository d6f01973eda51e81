//! Polynomials in one variable, as sequences of coefficients with the constant first.
use vstd::prelude::*;

use crate::field;
use crate::field::Field;

verus! {

/// The value at `t`.
pub open spec fn poly_at<F: Field>(p: Seq<F>, t: F) -> F
    decreases p.len(),
{
    if p.len() == 0 {
        F::spec_zero()
    } else {
        p[0] + t * poly_at(p.drop_first(), t)
    }
}

/// The coefficient of the power `i`; zero beyond the end.
pub open spec fn poly_coeff<F: Field>(p: Seq<F>, i: int) -> F {
    if 0 <= i < p.len() {
        p[i]
    } else {
        F::spec_zero()
    }
}

pub open spec fn poly_add<F: Field>(p: Seq<F>, q: Seq<F>) -> Seq<F> {
    Seq::new(
        crate::expr::max(p.len(), q.len()),
        |i: int| poly_coeff(p, i) + poly_coeff(q, i),
    )
}

pub open spec fn poly_scale<F: Field>(factor: F, p: Seq<F>) -> Seq<F> {
    Seq::new(p.len(), |i: int| factor * p[i])
}

/// The product with the variable.
pub open spec fn poly_shift<F: Field>(p: Seq<F>) -> Seq<F> {
    seq![F::spec_zero()] + p
}

pub open spec fn poly_mul<F: Field>(p: Seq<F>, q: Seq<F>) -> Seq<F>
    decreases p.len(),
{
    if p.len() == 0 {
        Seq::empty()
    } else {
        poly_add(poly_scale(p[0], q), poly_shift(poly_mul(p.drop_first(), q)))
    }
}

pub open spec fn poly_power<F: Field>(p: Seq<F>, exp: nat) -> Seq<F>
    decreases exp,
{
    if exp == 0 {
        seq![F::spec_one()]
    } else {
        poly_mul(p, poly_power(p, (exp - 1) as nat))
    }
}

proof fn lemma_poly_add_empty<F: Field>(p: Seq<F>)
    ensures
        poly_add(p, Seq::empty()) == p,
        poly_add(Seq::empty(), p) == p,
{
    assert forall|i: int| 0 <= i < p.len() implies #[trigger] p[i] + F::spec_zero() == p[i]
        && F::spec_zero() + p[i] == p[i] by {
        F::law_add_zero(p[i]);
        field::lemma_zero_add(p[i]);
    }
    assert(poly_add(p, Seq::empty()) =~= p);
    assert(poly_add(Seq::empty(), p) =~= p);
}

pub proof fn lemma_poly_add_at<F: Field>(p: Seq<F>, q: Seq<F>, t: F)
    ensures
        poly_at(poly_add(p, q), t) == poly_at(p, t) + poly_at(q, t),
    decreases p.len() + q.len(),
{
    if p.len() == 0 {
        assert(p =~= Seq::empty());
        lemma_poly_add_empty(q);
        field::lemma_zero_add(poly_at(q, t));
    } else if q.len() == 0 {
        assert(q =~= Seq::empty());
        lemma_poly_add_empty(p);
        F::law_add_zero(poly_at(p, t));
    } else {
        let (p1, q1) = (p.drop_first(), q.drop_first());
        lemma_poly_add_at(p1, q1, t);
        assert(poly_add(p, q).drop_first() =~= poly_add(p1, q1));
        assert(poly_add(p, q)[0] == p[0] + q[0]);
        F::law_mul_distributes(t, poly_at(p1, t), poly_at(q1, t));
        field::lemma_add_swaps_middle(p[0], q[0], t * poly_at(p1, t), t * poly_at(q1, t));
    }
}

proof fn lemma_poly_scale_at<F: Field>(factor: F, p: Seq<F>, t: F)
    ensures
        poly_at(poly_scale(factor, p), t) == factor * poly_at(p, t),
    decreases p.len(),
{
    if p.len() == 0 {
        field::lemma_mul_zero(factor);
    } else {
        let p1 = p.drop_first();
        lemma_poly_scale_at(factor, p1, t);
        assert(poly_scale(factor, p).drop_first() =~= poly_scale(factor, p1));
        F::law_mul_distributes(factor, p[0], t * poly_at(p1, t));
        F::law_mul_associates(factor, t, poly_at(p1, t));
        F::law_mul_commutes(factor, t);
        F::law_mul_associates(t, factor, poly_at(p1, t));
    }
}

proof fn lemma_poly_shift_at<F: Field>(p: Seq<F>, t: F)
    ensures
        poly_at(poly_shift(p), t) == t * poly_at(p, t),
{
    assert(poly_shift(p).drop_first() =~= p);
    field::lemma_zero_add(t * poly_at(p, t));
}

pub proof fn lemma_poly_mul_at<F: Field>(p: Seq<F>, q: Seq<F>, t: F)
    ensures
        poly_at(poly_mul(p, q), t) == poly_at(p, t) * poly_at(q, t),
    decreases p.len(),
{
    if p.len() == 0 {
        field::lemma_mul_zero(poly_at(q, t));
    } else {
        let p1 = p.drop_first();
        let rest = poly_mul(p1, q);
        lemma_poly_mul_at(p1, q, t);
        lemma_poly_add_at(poly_scale(p[0], q), poly_shift(rest), t);
        lemma_poly_scale_at(p[0], q, t);
        lemma_poly_shift_at(rest, t);
        field::lemma_mul_distributes_right(p[0], t * poly_at(p1, t), poly_at(q, t));
        F::law_mul_associates(t, poly_at(p1, t), poly_at(q, t));
    }
}

pub proof fn lemma_poly_power_at<F: Field>(p: Seq<F>, exp: nat, t: F)
    ensures
        poly_at(poly_power(p, exp), t) == field::power(poly_at(p, t), exp),
    decreases exp,
{
    if exp == 0 {
        lemma_poly_one_coeff_at(F::spec_one(), t);
    } else {
        lemma_poly_power_at(p, (exp - 1) as nat, t);
        lemma_poly_mul_at(p, poly_power(p, (exp - 1) as nat), t);
    }
}

pub proof fn lemma_poly_one_coeff_at<F: Field>(c: F, t: F)
    ensures
        poly_at(seq![c], t) == c,
{
    reveal_with_fuel(poly_at, 2);
    assert(seq![c].drop_first() =~= Seq::empty());
    field::lemma_mul_zero(t);
    F::law_add_zero(c);
}

/// The product of two polynomials has the product of their last coefficients as its last one.
pub proof fn lemma_poly_mul_last<F: Field>(p: Seq<F>, q: Seq<F>)
    requires
        p.len() > 0,
        q.len() > 0,
    ensures
        poly_mul(p, q).len() == p.len() + q.len() - 1,
        poly_mul(p, q).last() == p.last() * q.last(),
    decreases p.len(),
{
    let p1 = p.drop_first();
    let rest = poly_mul(p1, q);
    let low = poly_scale(p[0], q);
    let high = poly_shift(rest);
    if p.len() == 1 {
        assert(rest =~= Seq::empty());
        let last = q.len() - 1;
        assert(poly_coeff(high, last) == F::spec_zero());
        assert(poly_mul(p, q)[last] == p[0] * q[last] + F::spec_zero());
        F::law_add_zero(p[0] * q[last]);
    } else {
        lemma_poly_mul_last(p1, q);
        let last = p.len() + q.len() - 2;
        assert(poly_coeff(low, last) == F::spec_zero());
        assert(poly_coeff(high, last) == rest.last());
        field::lemma_zero_add(rest.last());
    }
}

pub proof fn lemma_poly_power_last<F: Field>(p: Seq<F>, exp: nat)
    requires
        p.len() > 0,
    ensures
        poly_power(p, exp).len() == (p.len() - 1) * exp + 1,
        poly_power(p, exp).last() == field::power(p.last(), exp),
    decreases exp,
{
    if exp == 0 {
        assert((p.len() - 1) * exp == 0) by (nonlinear_arith)
            requires
                exp == 0,
        ;
    } else {
        let e1 = (exp - 1) as nat;
        lemma_poly_power_last(p, e1);
        let d = p.len() - 1;
        assert(d * exp == d * e1 + d && d * e1 >= 0) by (nonlinear_arith)
            requires
                e1 == exp - 1,
                d >= 0,
                e1 >= 0,
        ;
        lemma_poly_mul_last(p, poly_power(p, e1));
    }
}

} // verus!

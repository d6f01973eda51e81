//! The terms of highest degree.
use vstd::prelude::*;

use crate::expr::ArithExpr;
use crate::field;
use crate::field::Field;
use crate::poly;

verus! {

impl<F: Field> ArithExpr<F> {
    /// The expression with only its terms of highest degree.
    pub open spec fn leading(self) -> Self
        decreases self,
    {
        match self {
            ArithExpr::Const(_) => self,
            ArithExpr::Var(_) => self,
            ArithExpr::Add(left, right) => if left.total_degree() < right.total_degree() {
                right.leading()
            } else if left.total_degree() == right.total_degree() {
                ArithExpr::Add(Box::new(left.leading()), Box::new(right.leading()))
            } else {
                left.leading()
            },
            ArithExpr::Mul(left, right) => ArithExpr::Mul(
                Box::new(left.leading()),
                Box::new(right.leading()),
            ),
            ArithExpr::Pow(base, exp) => ArithExpr::Pow(Box::new(base.leading()), exp),
        }
    }

    /// The expression along the line from the origin through `point`, as a polynomial in the
    /// factor `t` by which every variable is scaled.
    pub open spec fn along(self, point: spec_fn(nat) -> F) -> Seq<F>
        decreases self,
    {
        match self {
            ArithExpr::Const(value) => seq![value],
            ArithExpr::Var(index) => seq![F::spec_zero(), point(index as nat)],
            ArithExpr::Add(left, right) => poly::poly_add(left.along(point), right.along(point)),
            ArithExpr::Mul(left, right) => poly::poly_mul(left.along(point), right.along(point)),
            ArithExpr::Pow(base, exp) => poly::poly_power(base.along(point), exp as nat),
        }
    }

    /// Return a new arithmetic expression that contains only the terms of highest degree
    /// (useful for interpolation at Karatsuba infinity point).
    pub fn leading_term(&self) -> (r: Self)
        requires
            self.degree_fits(),
        ensures
            r == self.leading(),
    {
        let (_, expr) = self.leading_term_with_degree();
        expr
    }

    /// Same as `leading_term`, but returns the total degree as the first tuple element as well.
    pub fn leading_term_with_degree(&self) -> (r: (usize, Self))
        requires
            self.degree_fits(),
        ensures
            r.0 == self.total_degree(),
            r.1 == self.leading(),
        decreases self,
    {
        match self {
            ArithExpr::Const(_) => (0, self.clone()),
            ArithExpr::Var(_) => (1, self.clone()),
            ArithExpr::Add(left, right) => {
                let (lhs_degree, lhs) = left.leading_term_with_degree();
                let (rhs_degree, rhs) = right.leading_term_with_degree();
                if lhs_degree < rhs_degree {
                    (rhs_degree, rhs)
                } else if lhs_degree == rhs_degree {
                    (lhs_degree, ArithExpr::Add(Box::new(lhs), Box::new(rhs)))
                } else {
                    (lhs_degree, lhs)
                }
            },
            ArithExpr::Mul(left, right) => {
                let (lhs_degree, lhs) = left.leading_term_with_degree();
                let (rhs_degree, rhs) = right.leading_term_with_degree();
                (lhs_degree + rhs_degree, ArithExpr::Mul(Box::new(lhs), Box::new(rhs)))
            },
            ArithExpr::Pow(base, exp) => {
                let (base_degree, base) = base.leading_term_with_degree();
                (base_degree * (*exp as usize), ArithExpr::Pow(Box::new(base), *exp))
            },
        }
    }
}

/// `point` with every coordinate multiplied by `t`.
pub open spec fn scaled_point<F: Field>(t: F, point: spec_fn(nat) -> F) -> spec_fn(nat) -> F {
    |i: nat| t * point(i)
}

/// The polynomial along a line has the values of the expression on that line.
pub proof fn law_along_evaluates<F: Field>(e: ArithExpr<F>, point: spec_fn(nat) -> F, t: F)
    ensures
        poly::poly_at(e.along(point), t) == e.eval(scaled_point(t, point)),
    decreases e,
{
    match e {
        ArithExpr::Const(value) => {
            poly::lemma_poly_one_coeff_at(value, t);
        },
        ArithExpr::Var(index) => {
            let x = point(index as nat);
            let p = seq![F::spec_zero(), x];
            assert(p.drop_first() =~= seq![x]);
            poly::lemma_poly_one_coeff_at(x, t);
            field::lemma_zero_add(t * x);
        },
        ArithExpr::Add(left, right) => {
            law_along_evaluates(*left, point, t);
            law_along_evaluates(*right, point, t);
            poly::lemma_poly_add_at(left.along(point), right.along(point), t);
        },
        ArithExpr::Mul(left, right) => {
            law_along_evaluates(*left, point, t);
            law_along_evaluates(*right, point, t);
            poly::lemma_poly_mul_at(left.along(point), right.along(point), t);
        },
        ArithExpr::Pow(base, exp) => {
            law_along_evaluates(*base, point, t);
            poly::lemma_poly_power_at(base.along(point), exp as nat, t);
        },
    }
}

/// The leading term is the value at infinity: along every line through the origin the expression
/// is a polynomial of its total degree, and the coefficient of that power is the value of the
/// leading term.
pub proof fn law_leading_is_top_coefficient<F: Field>(e: ArithExpr<F>, point: spec_fn(nat) -> F)
    ensures
        e.along(point).len() == e.total_degree() + 1,
        e.along(point)[e.total_degree() as int] == e.leading().eval(point),
    decreases e,
{
    match e {
        ArithExpr::Const(_) => {},
        ArithExpr::Var(_) => {},
        ArithExpr::Add(left, right) => {
            law_leading_is_top_coefficient(*left, point);
            law_leading_is_top_coefficient(*right, point);
            F::law_add_zero(left.leading().eval(point));
            field::lemma_zero_add(right.leading().eval(point));
        },
        ArithExpr::Mul(left, right) => {
            law_leading_is_top_coefficient(*left, point);
            law_leading_is_top_coefficient(*right, point);
            poly::lemma_poly_mul_last(left.along(point), right.along(point));
        },
        ArithExpr::Pow(base, exp) => {
            law_leading_is_top_coefficient(*base, point);
            poly::lemma_poly_power_last(base.along(point), exp as nat);
        },
    }
}

/// The leading term keeps the degree, and has no term of another degree: where every variable is
/// scaled by `t`, its value is scaled by `t` to the power of the degree.
pub proof fn law_leading_is_homogeneous<F: Field>(e: ArithExpr<F>, point: spec_fn(nat) -> F, t: F)
    ensures
        e.leading().total_degree() == e.total_degree(),
        e.leading().eval(scaled_point(t, point)) == field::power(t, e.total_degree())
            * e.leading().eval(point),
    decreases e,
{
    match e {
        ArithExpr::Const(value) => {
            field::lemma_one_mul(value);
        },
        ArithExpr::Var(_) => {
            field::lemma_power_one(t);
        },
        ArithExpr::Add(left, right) => {
            law_leading_is_homogeneous(*left, point, t);
            law_leading_is_homogeneous(*right, point, t);
            F::law_mul_distributes(
                field::power(t, e.total_degree()),
                left.leading().eval(point),
                right.leading().eval(point),
            );
        },
        ArithExpr::Mul(left, right) => {
            law_leading_is_homogeneous(*left, point, t);
            law_leading_is_homogeneous(*right, point, t);
            let (m, n) = (left.total_degree(), right.total_degree());
            field::lemma_power_adds(t, m, n);
            field::lemma_mul_swaps_middle(
                field::power(t, m),
                left.leading().eval(point),
                field::power(t, n),
                right.leading().eval(point),
            );
        },
        ArithExpr::Pow(base, exp) => {
            law_leading_is_homogeneous(*base, point, t);
            let d = base.total_degree();
            field::lemma_power_of_product(
                field::power(t, d),
                base.leading().eval(point),
                exp as nat,
            );
            field::lemma_power_of_power(t, d, exp as nat);
        },
    }
}

/// The leading term of a leading term is itself.
pub proof fn law_leading_is_idempotent<F: Field>(e: ArithExpr<F>)
    ensures
        e.leading().total_degree() == e.total_degree(),
        e.leading().leading() == e.leading(),
    decreases e,
{
    match e {
        ArithExpr::Const(_) => {},
        ArithExpr::Var(_) => {},
        ArithExpr::Add(left, right) => {
            law_leading_is_idempotent(*left);
            law_leading_is_idempotent(*right);
        },
        ArithExpr::Mul(left, right) => {
            law_leading_is_idempotent(*left);
            law_leading_is_idempotent(*right);
        },
        ArithExpr::Pow(base, _) => {
            law_leading_is_idempotent(*base);
        },
    }
}

} // verus!

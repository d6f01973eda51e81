//! Rewriting of expressions for better evaluation performance.
use vstd::prelude::*;

use crate::expr::ArithExpr;
use crate::field;
use crate::field::Field;

verus! {

impl<F: Field> ArithExpr<F> {
    /// What a sum of optimized expressions is rewritten to.
    pub open spec fn folded_add(left: Self, right: Self) -> Self {
        match (left, right) {
            // constant folding
            (ArithExpr::Const(l), ArithExpr::Const(r)) => ArithExpr::Const(l + r),
            // 0 + a = a
            (ArithExpr::Const(l), _) if l == F::spec_zero() => right,
            // a + 0 = a
            (_, ArithExpr::Const(r)) if r == F::spec_zero() => left,
            // a + a = 0 in characteristic 2
            _ => if left == right && F::spec_characteristic() == 2 {
                ArithExpr::Const(F::spec_zero())
            } else {
                ArithExpr::Add(Box::new(left), Box::new(right))
            },
        }
    }

    /// What a product of optimized expressions is rewritten to.
    pub open spec fn folded_mul(left: Self, right: Self) -> Self {
        match (left, right) {
            // constant folding
            (ArithExpr::Const(l), ArithExpr::Const(r)) => ArithExpr::Const(l * r),
            // 0 * a = 0
            (ArithExpr::Const(l), _) if l == F::spec_zero() => left,
            // a * 0 = 0
            (_, ArithExpr::Const(r)) if r == F::spec_zero() => right,
            // 1 * a = a
            (ArithExpr::Const(l), _) if l == F::spec_one() => right,
            // a * 1 = a
            (_, ArithExpr::Const(r)) if r == F::spec_one() => left,
            _ => ArithExpr::Mul(Box::new(left), Box::new(right)),
        }
    }

    /// What a power of an optimized expression is rewritten to.
    pub open spec fn folded_pow(base: Self, exp: u64) -> Self {
        match base {
            // constant folding
            ArithExpr::Const(value) => ArithExpr::Const(field::power(value, exp as nat)),
            // (a ^ m) ^ n = a ^ (m * n)
            ArithExpr::Pow(inner, inner_exp) => ArithExpr::Pow(inner, (exp * inner_exp) as u64),
            _ => ArithExpr::Pow(Box::new(base), exp),
        }
    }

    /// The expression after the rewriting of all its parts, from the leaves up.
    pub open spec fn optimized(self) -> Self
        decreases self,
    {
        match self {
            ArithExpr::Const(_) => self,
            ArithExpr::Var(_) => self,
            ArithExpr::Add(left, right) => Self::folded_add(left.optimized(), right.optimized()),
            ArithExpr::Mul(left, right) => Self::folded_mul(left.optimized(), right.optimized()),
            ArithExpr::Pow(base, exp) => Self::folded_pow(base.optimized(), exp),
        }
    }

    /// Whether every exponent that the rewriting multiplies out is a `u64`.
    pub open spec fn exponents_multiply(self) -> bool
        decreases self,
    {
        match self {
            ArithExpr::Const(_) => true,
            ArithExpr::Var(_) => true,
            ArithExpr::Add(left, right) => left.exponents_multiply() && right.exponents_multiply(),
            ArithExpr::Mul(left, right) => left.exponents_multiply() && right.exponents_multiply(),
            ArithExpr::Pow(base, exp) => base.exponents_multiply() && match base.optimized() {
                ArithExpr::Pow(_, inner_exp) => exp * inner_exp <= u64::MAX,
                _ => true,
            },
        }
    }

    /// Creates a new optimized expression.
    ///
    /// Recursively rewrites the expression for better evaluation performance. Performs constant
    /// folding, as well as leverages simple rewriting rules around additive/multiplicative
    /// identities and addition in characteristic 2.
    pub fn optimize(&self) -> (r: Self)
        requires
            self.exponents_multiply(),
        ensures
            r == self.optimized(),
            forall|point: spec_fn(nat) -> F| #[trigger] r.eval(point) == self.eval(point),
        decreases self,
    {
        proof {
            assert forall|point: spec_fn(nat) -> F| #[trigger]
                self.optimized().eval(point) == self.eval(point) by {
                law_optimized_evaluates(*self, point);
            }
        }
        match self {
            ArithExpr::Const(_) | ArithExpr::Var(_) => self.clone(),
            ArithExpr::Add(left, right) => Self::fold_add(left.optimize(), right.optimize()),
            ArithExpr::Mul(left, right) => Self::fold_mul(left.optimize(), right.optimize()),
            ArithExpr::Pow(base, exp) => Self::fold_pow(base.optimize(), *exp),
        }
    }

    fn fold_add(left: Self, right: Self) -> (r: Self)
        ensures
            r == Self::folded_add(left, right),
    {
        match (left.constant(), right.constant()) {
            (Some(l), Some(r)) => ArithExpr::Const(l.add(r)),
            (Some(l), None) if l.equals(F::zero()) => right,
            (None, Some(r)) if r.equals(F::zero()) => left,
            // relies on precise structural equality
            _ => if left == right && F::characteristic() == 2 {
                ArithExpr::Const(F::zero())
            } else {
                ArithExpr::Add(Box::new(left), Box::new(right))
            },
        }
    }

    fn fold_mul(left: Self, right: Self) -> (r: Self)
        ensures
            r == Self::folded_mul(left, right),
    {
        match (left.constant(), right.constant()) {
            (Some(l), Some(r)) => ArithExpr::Const(l.mul(r)),
            (Some(l), None) if l.equals(F::zero()) => left,
            (None, Some(r)) if r.equals(F::zero()) => right,
            (Some(l), None) if l.equals(F::one()) => right,
            (None, Some(r)) if r.equals(F::one()) => left,
            _ => ArithExpr::Mul(Box::new(left), Box::new(right)),
        }
    }

    fn fold_pow(base: Self, exp: u64) -> (r: Self)
        requires
            base matches ArithExpr::Pow(_, inner_exp) ==> exp * inner_exp <= u64::MAX,
        ensures
            r == Self::folded_pow(base, exp),
    {
        match base {
            ArithExpr::Const(value) => ArithExpr::Const(field::pow(value, exp)),
            ArithExpr::Pow(inner, inner_exp) => ArithExpr::Pow(inner, exp * inner_exp),
            base => ArithExpr::Pow(Box::new(base), exp),
        }
    }

    /// Whether no rewriting rule applies to any part of the expression.
    pub open spec fn is_settled(self) -> bool
        decreases self,
    {
        match self {
            ArithExpr::Const(_) => true,
            ArithExpr::Var(_) => true,
            ArithExpr::Add(left, right) => left.is_settled() && right.is_settled()
                && Self::folded_add(*left, *right) == self,
            ArithExpr::Mul(left, right) => left.is_settled() && right.is_settled()
                && Self::folded_mul(*left, *right) == self,
            ArithExpr::Pow(base, _) => base.is_settled() && !(*base is Const) && !(*base is Pow),
        }
    }
}

/// Optimization keeps the value of an expression at every point.
pub proof fn law_optimized_evaluates<F: Field>(e: ArithExpr<F>, point: spec_fn(nat) -> F)
    requires
        e.exponents_multiply(),
    ensures
        e.optimized().eval(point) == e.eval(point),
    decreases e,
{
    match e {
        ArithExpr::Const(_) => {},
        ArithExpr::Var(_) => {},
        ArithExpr::Add(left, right) => {
            law_optimized_evaluates(*left, point);
            law_optimized_evaluates(*right, point);
            let (l, r) = (left.optimized(), right.optimized());
            field::lemma_zero_add(r.eval(point));
            F::law_add_zero(l.eval(point));
            if F::spec_characteristic() == 2 {
                field::lemma_double_is_zero(l.eval(point));
            }
        },
        ArithExpr::Mul(left, right) => {
            law_optimized_evaluates(*left, point);
            law_optimized_evaluates(*right, point);
            let (l, r) = (left.optimized(), right.optimized());
            field::lemma_mul_zero(l.eval(point));
            field::lemma_mul_zero(r.eval(point));
            field::lemma_one_mul(r.eval(point));
            F::law_mul_one(l.eval(point));
        },
        ArithExpr::Pow(base, exp) => {
            law_optimized_evaluates(*base, point);
            if let ArithExpr::Pow(inner, inner_exp) = base.optimized() {
                field::lemma_power_of_power(inner.eval(point), inner_exp as nat, exp as nat);
                assert(exp * inner_exp == (inner_exp as nat) * (exp as nat)) by (nonlinear_arith);
            }
        },
    }
}

proof fn lemma_optimized_is_settled<F: Field>(e: ArithExpr<F>)
    ensures
        e.optimized().is_settled(),
    decreases e,
{
    match e {
        ArithExpr::Const(_) => {},
        ArithExpr::Var(_) => {},
        ArithExpr::Add(left, right) => {
            lemma_optimized_is_settled(*left);
            lemma_optimized_is_settled(*right);
        },
        ArithExpr::Mul(left, right) => {
            lemma_optimized_is_settled(*left);
            lemma_optimized_is_settled(*right);
        },
        ArithExpr::Pow(base, _) => {
            lemma_optimized_is_settled(*base);
        },
    }
}

proof fn lemma_settled_is_kept<F: Field>(e: ArithExpr<F>)
    requires
        e.is_settled(),
    ensures
        e.optimized() == e,
        e.exponents_multiply(),
    decreases e,
{
    match e {
        ArithExpr::Const(_) => {},
        ArithExpr::Var(_) => {},
        ArithExpr::Add(left, right) => {
            lemma_settled_is_kept(*left);
            lemma_settled_is_kept(*right);
        },
        ArithExpr::Mul(left, right) => {
            lemma_settled_is_kept(*left);
            lemma_settled_is_kept(*right);
        },
        ArithExpr::Pow(base, _) => {
            lemma_settled_is_kept(*base);
        },
    }
}

/// Optimization is finished after one round: no rule applies to an optimized expression, and a
/// second round can be taken and leaves it as it is.
pub proof fn law_optimized_is_settled<F: Field>(e: ArithExpr<F>)
    ensures
        e.optimized().is_settled(),
        e.optimized().exponents_multiply(),
        e.optimized().optimized() == e.optimized(),
{
    lemma_optimized_is_settled(e);
    lemma_settled_is_kept(e.optimized());
}

/// Optimization brings in no variable.
pub proof fn law_optimized_keeps_variables<F: Field>(e: ArithExpr<F>)
    ensures
        forall|i: int| #[trigger] e.optimized().uses_var(i) ==> e.uses_var(i),
        e.optimized().var_bound() <= e.var_bound(),
    decreases e,
{
    match e {
        ArithExpr::Const(_) => {},
        ArithExpr::Var(_) => {},
        ArithExpr::Add(left, right) => {
            law_optimized_keeps_variables(*left);
            law_optimized_keeps_variables(*right);
            assert forall|i: int| #[trigger] e.optimized().uses_var(i) implies e.uses_var(i) by {
                assert(left.optimized().uses_var(i) || right.optimized().uses_var(i));
            }
        },
        ArithExpr::Mul(left, right) => {
            law_optimized_keeps_variables(*left);
            law_optimized_keeps_variables(*right);
            assert forall|i: int| #[trigger] e.optimized().uses_var(i) implies e.uses_var(i) by {
                assert(left.optimized().uses_var(i) || right.optimized().uses_var(i));
            }
        },
        ArithExpr::Pow(base, _) => {
            law_optimized_keeps_variables(*base);
            assert forall|i: int| #[trigger] e.optimized().uses_var(i) implies e.uses_var(i) by {
                assert(base.optimized().uses_var(i));
            }
        },
    }
}

/// Optimization never raises the degree.
pub proof fn law_optimized_keeps_degree<F: Field>(e: ArithExpr<F>)
    requires
        e.exponents_multiply(),
    ensures
        e.optimized().total_degree() <= e.total_degree(),
    decreases e,
{
    match e {
        ArithExpr::Const(_) => {},
        ArithExpr::Var(_) => {},
        ArithExpr::Add(left, right) => {
            law_optimized_keeps_degree(*left);
            law_optimized_keeps_degree(*right);
        },
        ArithExpr::Mul(left, right) => {
            law_optimized_keeps_degree(*left);
            law_optimized_keeps_degree(*right);
        },
        ArithExpr::Pow(base, exp) => {
            law_optimized_keeps_degree(*base);
            let d = base.total_degree();
            let o = base.optimized().total_degree();
            assert(o * (exp as nat) <= d * (exp as nat)) by (nonlinear_arith)
                requires
                    o <= d,
            ;
            if let ArithExpr::Pow(inner, inner_exp) = base.optimized() {
                let i = inner.total_degree();
                assert(i * ((exp * inner_exp) as nat) == (i * (inner_exp as nat)) * (exp as nat))
                    by (nonlinear_arith);
            }
        },
    }
}

/// Constants fold completely: an expression without variables is optimized to the constant that
/// is its value.
pub proof fn law_closed_expression_folds<F: Field>(e: ArithExpr<F>, point: spec_fn(nat) -> F)
    requires
        e.var_bound() == 0,
    ensures
        e.exponents_multiply(),
        e.optimized() == ArithExpr::Const(e.eval(point)),
    decreases e,
{
    match e {
        ArithExpr::Const(_) => {},
        ArithExpr::Var(_) => {},
        ArithExpr::Add(left, right) => {
            law_closed_expression_folds(*left, point);
            law_closed_expression_folds(*right, point);
        },
        ArithExpr::Mul(left, right) => {
            law_closed_expression_folds(*left, point);
            law_closed_expression_folds(*right, point);
        },
        ArithExpr::Pow(base, _) => {
            law_closed_expression_folds(*base, point);
        },
    }
}

} // verus!

//! Symbolic evaluation: linear normal forms and dual numbers of expressions.
use vstd::prelude::*;

use crate::affine;
use crate::affine::Affine;
use crate::error::Error;
use crate::expr::ArithExpr;
use crate::field;
use crate::field::Field;
use crate::laws;
use crate::linear::{Dual, LinearNormalForm};

verus! {

impl<F: Field> ArithExpr<F> {
    /// The affine function that the expression is, built up from its parts; nothing where a part
    /// multiplies two functions neither of which is constant, or raises one that is not to a
    /// power above one. The power zero is one, whatever the base.
    pub open spec fn linear_form(self) -> Option<Affine<F>>
        decreases self,
    {
        match self {
            ArithExpr::Const(value) => Some(Affine::flat(value, 0)),
            ArithExpr::Var(index) => Some(Affine::unit(index as int, index as nat + 1)),
            ArithExpr::Add(left, right) => match (left.linear_form(), right.linear_form()) {
                (Some(l), Some(r)) => Some(l.plus(r)),
                _ => None,
            },
            ArithExpr::Mul(left, right) => match (left.linear_form(), right.linear_form()) {
                (Some(l), Some(r)) => l.times(r),
                _ => None,
            },
            ArithExpr::Pow(base, exp) => match base.linear_form() {
                Some(b) => b.raised(exp as nat),
                None => if exp == 0 {
                    Some(Affine::flat(F::spec_one(), base.var_bound()))
                } else {
                    None
                },
            },
        }
    }

    /// The affine function that the expression is of the inputs `vars`, which are affine
    /// functions themselves; nothing where a part multiplies two functions neither of which is
    /// constant, or raises one that is not to a power above one.
    pub open spec fn dual_form(self, vars: Seq<Affine<F>>) -> Option<Affine<F>>
        decreases self,
    {
        match self {
            ArithExpr::Const(value) => Some(Affine::flat(value, vars.len())),
            ArithExpr::Var(index) => Some(vars[index as int]),
            ArithExpr::Add(left, right) => match (left.dual_form(vars), right.dual_form(vars)) {
                (Some(l), Some(r)) => Some(l.plus_common(r)),
                _ => None,
            },
            ArithExpr::Mul(left, right) => match (left.dual_form(vars), right.dual_form(vars)) {
                (Some(l), Some(r)) => l.times(r),
                _ => None,
            },
            ArithExpr::Pow(base, exp) => match base.dual_form(vars) {
                Some(b) => b.raised(exp as nat),
                None => None,
            },
        }
    }

    /// Whether the evaluation over `vars`, from the left to the first part that is not linear,
    /// reads no variable that is missing and no exponent that is not a `usize`.
    pub open spec fn dual_defined(self, vars: Seq<Affine<F>>) -> bool
        decreases self,
    {
        match self {
            ArithExpr::Const(_) => true,
            ArithExpr::Var(index) => index < vars.len(),
            ArithExpr::Add(left, right) => left.dual_defined(vars) && (left.dual_form(vars) is Some
                ==> right.dual_defined(vars)),
            ArithExpr::Mul(left, right) => left.dual_defined(vars) && (left.dual_form(vars) is Some
                ==> right.dual_defined(vars)),
            ArithExpr::Pow(base, exp) => base.dual_defined(vars) && (base.dual_form(vars) is Some
                ==> exp <= usize::MAX),
        }
    }

    /// Whether no part of the expression is raised to the power zero.
    pub open spec fn no_zero_power(self) -> bool
        decreases self,
    {
        match self {
            ArithExpr::Const(_) => true,
            ArithExpr::Var(_) => true,
            ArithExpr::Add(left, right) => left.no_zero_power() && right.no_zero_power(),
            ArithExpr::Mul(left, right) => left.no_zero_power() && right.no_zero_power(),
            ArithExpr::Pow(base, exp) => base.no_zero_power() && exp != 0,
        }
    }

    /// The first `n` variables, each as a function of all of them.
    pub open spec fn unit_inputs(n: nat) -> Seq<Affine<F>> {
        Seq::new(n, |i: int| Affine::unit(i, n))
    }

    /// Returns the normal form of an expression if it is linear.
    ///
    /// ## Throws
    ///
    /// - [`Error::NonLinearExpression`] if the expression is not linear.
    pub fn linear_normal_form(&self) -> (r: Result<LinearNormalForm<F>, Error>)
        requires
            self.degree_fits(),
            self.total_degree() <= 1 ==> self.var_bound() <= usize::MAX,
        ensures
            self.total_degree() > 1 ==> r == Err::<LinearNormalForm<F>, Error>(
                Error::NonLinearExpression,
            ),
            self.total_degree() <= 1 ==> (r matches Ok(form) && self.linear_form() == Some(form@)),
            r matches Ok(form) ==> forall|point: spec_fn(nat) -> F| #[trigger]
                form@.at(point) == self.eval(point),
    {
        if self.degree() > 1 {
            return Err(Error::NonLinearExpression);
        }
        proof {
            lemma_low_degree_is_linear(*self);
            assert forall|point: spec_fn(nat) -> F|
                self.linear_form()->0.at(point) == self.eval(point) by {
                law_linear_form_evaluates(*self, point);
            }
        }
        self.evaluate()
    }

    fn evaluate(&self) -> (r: Result<LinearNormalForm<F>, Error>)
        requires
            self.degree_fits(),
            self.var_bound() <= usize::MAX,
        ensures
            match self.linear_form() {
                Some(linear) => r matches Ok(form) && form@ == linear,
                None => r == Err::<LinearNormalForm<F>, Error>(Error::NonLinearExpression),
            },
        decreases self,
    {
        match self {
            ArithExpr::Const(value) => Ok(LinearNormalForm::new(*value)),
            ArithExpr::Var(index) => {
                let mut var_coeffs: Vec<F> = field::zeros(self.n_vars());
                var_coeffs[*index] = F::one();
                let form = LinearNormalForm { constant: F::zero(), var_coeffs };
                assert(form@ =~= Affine::unit(*index as int, *index as nat + 1));
                Ok(form)
            },
            ArithExpr::Add(left, right) => match left.evaluate() {
                Err(error) => Err(error),
                Ok(l) => match right.evaluate() {
                    Err(error) => Err(error),
                    Ok(r) => Ok(l + r),
                },
            },
            ArithExpr::Mul(left, right) => match left.evaluate() {
                Err(error) => Err(error),
                Ok(l) => match right.evaluate() {
                    Err(error) => Err(error),
                    Ok(r) => l * r,
                },
            },
            ArithExpr::Pow(base, exp) => match base.evaluate() {
                Ok(form) => form.pow(*exp as usize),
                Err(error) => if *exp == 0 {
                    // every expression to the power zero is one, and so linear
                    Ok(LinearNormalForm::constant(F::one(), base.n_vars()))
                } else {
                    Err(error)
                },
            },
        }
    }

    /// Evaluate to a dual number, detecting non-linearity on the fly.
    pub fn evaluate_dual(&self, vars: &[Dual<F>]) -> (r: Result<Dual<F>, Error>)
        requires
            self.dual_defined(vars@.map_values(|d: Dual<F>| d@)),
        ensures
            match self.dual_form(vars@.map_values(|d: Dual<F>| d@)) {
                Some(linear) => r matches Ok(d) && d@ == linear,
                None => r == Err::<Dual<F>, Error>(Error::NonLinearExpression),
            },
        decreases self,
    {
        match self {
            ArithExpr::Const(value) => Ok(Dual::constant(*value, vars.len())),
            ArithExpr::Var(index) => Ok(vars[*index].clone()),
            ArithExpr::Add(left, right) => match left.evaluate_dual(vars) {
                Err(error) => Err(error),
                Ok(l) => match right.evaluate_dual(vars) {
                    Err(error) => Err(error),
                    Ok(r) => Ok(l + r),
                },
            },
            ArithExpr::Mul(left, right) => match left.evaluate_dual(vars) {
                Err(error) => Err(error),
                Ok(l) => match right.evaluate_dual(vars) {
                    Err(error) => Err(error),
                    Ok(r) => l.checked_mul(r),
                },
            },
            ArithExpr::Pow(base, exp) => match base.evaluate_dual(vars) {
                Err(error) => Err(error),
                Ok(b) => b.pow_uint(*exp as usize),
            },
        }
    }

    /// A convenience: build the dual inputs and extract a linear normal form
    pub fn to_linear_via_dual(&self) -> (r: Result<LinearNormalForm<F>, Error>)
        requires
            self.var_bound() <= usize::MAX,
            self.dual_defined(Self::unit_inputs(self.var_bound())),
        ensures
            match self.dual_form(Self::unit_inputs(self.var_bound())) {
                Some(linear) => r matches Ok(form) && form@ == linear,
                None => r == Err::<LinearNormalForm<F>, Error>(Error::NonLinearExpression),
            },
            r matches Ok(form) ==> form.var_coeffs@.len() == self.var_bound(),
            r matches Ok(form) ==> forall|point: spec_fn(nat) -> F| #[trigger]
                form@.at(point) == self.eval(point),
    {
        let n: usize = self.n_vars();
        let mut inputs: Vec<Dual<F>> = Vec::new();
        while inputs.len() < n
            invariant
                inputs.len() <= n,
                forall|i: int|
                    0 <= i < inputs.len() ==> #[trigger] inputs@[i]@ == Affine::<F>::unit(
                        i,
                        n as nat,
                    ),
            decreases n - inputs.len(),
        {
            inputs.push(Dual::variable(inputs.len(), n));
        }
        let ghost views = inputs@.map_values(|d: Dual<F>| d@);
        assert(views =~= Self::unit_inputs(n as nat));
        match self.evaluate_dual(inputs.as_slice()) {
            Err(error) => Err(error),
            Ok(out) => {
                proof {
                    lemma_dual_form_length(*self, views);
                    assert forall|point: spec_fn(nat) -> F|
                        out@.at(point) == self.eval(point) by {
                        law_dual_form_of_variables_evaluates(*self, point);
                    }
                }
                Ok(LinearNormalForm { constant: out.real, var_coeffs: out.derivs })
            },
        }
    }
}

/// An expression of degree at most one is linear, and one of degree zero is constant.
pub proof fn lemma_low_degree_is_linear<F: Field>(e: ArithExpr<F>)
    requires
        e.total_degree() <= 1,
    ensures
        e.linear_form() is Some,
        e.total_degree() == 0 ==> e.linear_form()->0.is_constant(),
    decreases e,
{
    match e {
        ArithExpr::Const(value) => {
            assert(e.linear_form() == Some(Affine::flat(value, 0)));
        },
        ArithExpr::Var(_) => {},
        ArithExpr::Add(left, right) => {
            lemma_low_degree_is_linear(*left);
            lemma_low_degree_is_linear(*right);
            if e.total_degree() == 0 {
                F::law_add_zero(F::spec_zero());
            }
        },
        ArithExpr::Mul(left, right) => {
            lemma_low_degree_is_linear(*left);
            lemma_low_degree_is_linear(*right);
        },
        ArithExpr::Pow(base, exp) => {
            let d = base.total_degree();
            if exp >= 2 {
                assert(d == 0) by (nonlinear_arith)
                    requires
                        d * (exp as nat) <= 1,
                        exp >= 2,
                ;
                lemma_low_degree_is_linear(*base);
            } else if exp == 1 {
                assert(d * (exp as nat) == d) by (nonlinear_arith)
                    requires
                        exp == 1,
                ;
                lemma_low_degree_is_linear(*base);
            }
        },
    }
}

/// The linear form of an expression has the values of the expression.
pub proof fn law_linear_form_evaluates<F: Field>(e: ArithExpr<F>, point: spec_fn(nat) -> F)
    requires
        e.linear_form() is Some,
    ensures
        e.linear_form()->0.at(point) == e.eval(point),
    decreases e,
{
    match e {
        ArithExpr::Const(value) => {
            affine::lemma_constant_at(Affine::flat(value, 0), point);
        },
        ArithExpr::Var(index) => {
            affine::lemma_unit_at(index as int, index as nat + 1, point);
        },
        ArithExpr::Add(left, right) => {
            law_linear_form_evaluates(*left, point);
            law_linear_form_evaluates(*right, point);
            affine::lemma_plus_at(left.linear_form()->0, right.linear_form()->0, point);
        },
        ArithExpr::Mul(left, right) => {
            law_linear_form_evaluates(*left, point);
            law_linear_form_evaluates(*right, point);
            affine::lemma_times_at(left.linear_form()->0, right.linear_form()->0, point);
        },
        ArithExpr::Pow(base, exp) => {
            if base.linear_form() is Some {
                law_linear_form_evaluates(*base, point);
                affine::lemma_raised_at(base.linear_form()->0, exp as nat, point);
            } else {
                affine::lemma_constant_at(e.linear_form()->0, point);
            }
        },
    }
}

/// Evaluation over functions of as many variables as there are inputs keeps that number.
proof fn lemma_dual_form_length<F: Field>(e: ArithExpr<F>, vars: Seq<Affine<F>>)
    requires
        e.dual_form(vars) is Some,
        e.var_bound() <= vars.len(),
        forall|i: int| 0 <= i < vars.len() ==> (#[trigger] vars[i]).coeffs.len() == vars.len(),
    ensures
        e.dual_form(vars)->0.coeffs.len() == vars.len(),
    decreases e,
{
    match e {
        ArithExpr::Const(_) => {},
        ArithExpr::Var(_) => {},
        ArithExpr::Add(left, right) => {
            lemma_dual_form_length(*left, vars);
            lemma_dual_form_length(*right, vars);
        },
        ArithExpr::Mul(left, right) => {
            lemma_dual_form_length(*left, vars);
            lemma_dual_form_length(*right, vars);
        },
        ArithExpr::Pow(base, _) => {
            lemma_dual_form_length(*base, vars);
        },
    }
}

/// Evaluation over dual numbers is composition: the result has, at every point, the value that
/// the expression has where its variables take the values of the inputs at that point.
pub proof fn law_dual_form_evaluates<F: Field>(
    e: ArithExpr<F>,
    vars: Seq<Affine<F>>,
    point: spec_fn(nat) -> F,
)
    requires
        e.dual_form(vars) is Some,
        e.var_bound() <= vars.len(),
        forall|i: int| 0 <= i < vars.len() ==> (#[trigger] vars[i]).coeffs.len() == vars.len(),
    ensures
        e.dual_form(vars)->0.at(point) == e.eval(|i: nat| vars[i as int].at(point)),
    decreases e,
{
    let inner = |i: nat| vars[i as int].at(point);
    match e {
        ArithExpr::Const(value) => {
            affine::lemma_constant_at(Affine::flat(value, vars.len()), point);
        },
        ArithExpr::Var(_) => {},
        ArithExpr::Add(left, right) => {
            law_dual_form_evaluates(*left, vars, point);
            law_dual_form_evaluates(*right, vars, point);
            lemma_dual_form_length(*left, vars);
            lemma_dual_form_length(*right, vars);
            let l = left.dual_form(vars)->0;
            let r = right.dual_form(vars)->0;
            affine::lemma_plus_common_is_plus(l, r);
            affine::lemma_plus_at(l, r, point);
        },
        ArithExpr::Mul(left, right) => {
            law_dual_form_evaluates(*left, vars, point);
            law_dual_form_evaluates(*right, vars, point);
            affine::lemma_times_at(left.dual_form(vars)->0, right.dual_form(vars)->0, point);
        },
        ArithExpr::Pow(base, exp) => {
            law_dual_form_evaluates(*base, vars, point);
            affine::lemma_raised_at(base.dual_form(vars)->0, exp as nat, point);
        },
    }
}

/// Evaluation over dual numbers succeeds on every expression of degree at most one that raises
/// nothing to the power zero; on one of degree zero the result is constant. (The base of a power
/// zero is evaluated all the same, and may fail where the power, which is one, would not.)
pub proof fn law_low_degree_has_dual_form<F: Field>(e: ArithExpr<F>, vars: Seq<Affine<F>>)
    requires
        e.total_degree() <= 1,
        e.no_zero_power(),
    ensures
        e.dual_form(vars) is Some,
        e.total_degree() == 0 ==> e.dual_form(vars)->0.is_constant(),
    decreases e,
{
    match e {
        ArithExpr::Const(value) => {
            assert(e.dual_form(vars) == Some(Affine::flat(value, vars.len())));
        },
        ArithExpr::Var(_) => {},
        ArithExpr::Add(left, right) => {
            law_low_degree_has_dual_form(*left, vars);
            law_low_degree_has_dual_form(*right, vars);
            F::law_add_zero(F::spec_zero());
        },
        ArithExpr::Mul(left, right) => {
            law_low_degree_has_dual_form(*left, vars);
            law_low_degree_has_dual_form(*right, vars);
        },
        ArithExpr::Pow(base, exp) => {
            let d = base.total_degree();
            assert(d <= d * (exp as nat) && (exp >= 2 && d * (exp as nat) <= 1 ==> d == 0))
                by (nonlinear_arith)
                requires
                    exp >= 1,
                    d >= 0,
            ;
            law_low_degree_has_dual_form(*base, vars);
            if exp == 1 {
                assert(d * (exp as nat) == d) by (nonlinear_arith)
                    requires
                        exp == 1,
                ;
            }
        },
    }
}

/// The dual number of an expression over its own variables has the values of the expression.
pub proof fn law_dual_form_of_variables_evaluates<F: Field>(
    e: ArithExpr<F>,
    point: spec_fn(nat) -> F,
)
    requires
        e.dual_form(ArithExpr::<F>::unit_inputs(e.var_bound())) is Some,
    ensures
        e.dual_form(ArithExpr::<F>::unit_inputs(e.var_bound()))->0.at(point) == e.eval(point),
{
    let n = e.var_bound();
    let vars = ArithExpr::<F>::unit_inputs(n);
    law_dual_form_evaluates(e, vars, point);
    assert forall|i: nat| i < n implies #[trigger] vars[i as int].at(point) == point(i) by {
        affine::lemma_unit_at(i as int, n, point);
    }
    laws::law_var_bound_is_least(e);
    laws::law_eval_reads_used_variables(e, |i: nat| vars[i as int].at(point), point);
}

} // verus!

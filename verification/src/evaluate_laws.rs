//! When symbolic evaluation succeeds, and how the result on a node follows from the results on its
//! operands.
use vstd::prelude::*;

use crate::affine::Affine;
use crate::expr::ArithExpr;
use crate::field;
use crate::field::Field;

verus! {

/// A function is constant exactly where all its coefficients are zero.
pub proof fn law_constant_has_zero_coefficients<F: Field>(f: Affine<F>)
    ensures
        f.is_constant() <==> forall|i: int|
            0 <= i < f.coeffs.len() ==> #[trigger] f.coeffs[i] == F::spec_zero(),
{
}

/// A sum has the sum of the constants and, for every variable, the sum of the coefficients, where
/// one that is missing is zero; it is a function of as many variables as the longer summand.
pub proof fn law_sum_of_functions<F: Field>(a: Affine<F>, b: Affine<F>, i: int)
    ensures
        a.plus(b).constant == a.constant + b.constant,
        a.plus(b).coeffs.len() >= a.coeffs.len(),
        a.plus(b).coeffs.len() >= b.coeffs.len(),
        a.plus(b).coeffs.len() == a.coeffs.len() || a.plus(b).coeffs.len() == b.coeffs.len(),
        0 <= i < a.coeffs.len() && i < b.coeffs.len() ==> a.plus(b).coeffs[i] == a.coeffs[i]
            + b.coeffs[i],
        a.coeffs.len() <= i < b.coeffs.len() ==> a.plus(b).coeffs[i] == b.coeffs[i],
        b.coeffs.len() <= i < a.coeffs.len() ==> a.plus(b).coeffs[i] == a.coeffs[i],
{
    F::law_add_zero(a.coeff(i));
    field::lemma_zero_add(b.coeff(i));
}

/// A sum over the common variables has the sum of the constants and of the coefficients; it is a
/// function of as many variables as the shorter summand.
pub proof fn law_common_sum_of_functions<F: Field>(a: Affine<F>, b: Affine<F>, i: int)
    ensures
        a.plus_common(b).constant == a.constant + b.constant,
        a.plus_common(b).coeffs.len() <= a.coeffs.len(),
        a.plus_common(b).coeffs.len() <= b.coeffs.len(),
        a.plus_common(b).coeffs.len() == a.coeffs.len() || a.plus_common(b).coeffs.len()
            == b.coeffs.len(),
        0 <= i < a.plus_common(b).coeffs.len() ==> a.plus_common(b).coeffs[i] == a.coeffs[i]
            + b.coeffs[i],
{
}

/// A product is affine exactly where one of the factors is constant. Its constant is the product
/// of the constants, and its coefficients follow the product rule.
pub proof fn law_product_of_functions<F: Field>(a: Affine<F>, b: Affine<F>, i: int)
    ensures
        a.times(b) is Some <==> (forall|j: int|
            0 <= j < a.coeffs.len() ==> #[trigger] a.coeffs[j] == F::spec_zero()) || (forall|j: int|
            0 <= j < b.coeffs.len() ==> #[trigger] b.coeffs[j] == F::spec_zero()),
        a.times(b) matches Some(p) ==> p.constant == a.constant * b.constant,
        a.times(b) matches Some(p) ==> p.coeff(i) == a.constant * b.coeff(i) + a.coeff(i)
            * b.constant,
        a.times(b) matches Some(p) ==> p.coeffs.len() == (if b.is_constant() {
            a.coeffs.len()
        } else {
            b.coeffs.len()
        }),
{
    if a.times(b) is Some {
        let zero = F::spec_zero();
        field::lemma_mul_zero(a.constant);
        field::lemma_mul_zero(b.constant);
        F::law_add_zero(zero);
        F::law_add_zero(a.constant * b.coeff(i));
        field::lemma_zero_add(a.coeff(i) * b.constant);
        if a.is_constant() {
            assert(a.coeff(i) == zero);
        }
        if b.is_constant() {
            assert(b.coeff(i) == zero);
        }
    }
}

/// A power is affine exactly where the exponent is zero or one or the base is constant. The power
/// zero is one, the power one is the base itself, and a higher power of a constant is constant.
pub proof fn law_power_of_function<F: Field>(a: Affine<F>, exp: nat, i: int)
    ensures
        a.raised(exp) is Some <==> exp <= 1 || forall|j: int|
            0 <= j < a.coeffs.len() ==> #[trigger] a.coeffs[j] == F::spec_zero(),
        a.raised(0) matches Some(p) && p.constant == F::spec_one() && p.coeff(i) == F::spec_zero(),
        a.raised(1) == Some(a),
        a.raised(exp) matches Some(p) ==> p.coeffs.len() == a.coeffs.len(),
        a.raised(exp) matches Some(p) ==> p.constant == field::power(a.constant, exp),
        exp != 1 ==> (a.raised(exp) matches Some(p) ==> p.coeff(i) == F::spec_zero()),
{
    if exp == 1 {
        field::lemma_power_one(a.constant);
    }
}

/// Whether a product can be evaluated over dual numbers depends on the results for its factors
/// alone: both have to be there, and one of them has to have zero derivatives only. The real part
/// of the result is the product of the real parts, and the derivatives follow the product rule.
pub proof fn law_dual_of_product<F: Field>(
    left: ArithExpr<F>,
    right: ArithExpr<F>,
    vars: Seq<Affine<F>>,
    l: Affine<F>,
    r: Affine<F>,
    i: int,
)
    requires
        left.dual_form(vars) == Some(l),
        right.dual_form(vars) == Some(r),
    ensures
        ArithExpr::Mul(Box::new(left), Box::new(right)).dual_form(vars) is Some <==> (forall|j: int|
            0 <= j < l.coeffs.len() ==> #[trigger] l.coeffs[j] == F::spec_zero()) || (forall|j: int|
            0 <= j < r.coeffs.len() ==> #[trigger] r.coeffs[j] == F::spec_zero()),
        ArithExpr::Mul(Box::new(left), Box::new(right)).dual_form(vars) matches Some(p) ==> {
            &&& p.constant == l.constant * r.constant
            &&& p.coeff(i) == l.constant * r.coeff(i) + l.coeff(i) * r.constant
            &&& p.coeffs.len() == if r.is_constant() {
                l.coeffs.len()
            } else {
                r.coeffs.len()
            }
        },
{
    law_product_of_functions(l, r, i);
}

/// A sum can be evaluated over dual numbers where its summands can. The real part of the result is
/// the sum of the real parts, and each derivative the sum of the derivatives.
pub proof fn law_dual_of_sum<F: Field>(
    left: ArithExpr<F>,
    right: ArithExpr<F>,
    vars: Seq<Affine<F>>,
    l: Affine<F>,
    r: Affine<F>,
    i: int,
)
    requires
        left.dual_form(vars) == Some(l),
        right.dual_form(vars) == Some(r),
    ensures
        ArithExpr::Add(Box::new(left), Box::new(right)).dual_form(vars) matches Some(s) && {
            &&& s.constant == l.constant + r.constant
            &&& s.coeffs.len() == if l.coeffs.len() <= r.coeffs.len() {
                l.coeffs.len()
            } else {
                r.coeffs.len()
            }
            &&& 0 <= i < s.coeffs.len() ==> s.coeffs[i] == l.coeffs[i] + r.coeffs[i]
        },
{
}

/// A power can be evaluated over dual numbers where its base can and the exponent is at most one
/// or the base has zero derivatives only. The real part of the result is the power of the real
/// part; the power one is the base, and any other has zero derivatives.
pub proof fn law_dual_of_power<F: Field>(
    base: ArithExpr<F>,
    exp: u64,
    vars: Seq<Affine<F>>,
    b: Affine<F>,
    i: int,
)
    requires
        base.dual_form(vars) == Some(b),
    ensures
        ArithExpr::Pow(Box::new(base), exp).dual_form(vars) is Some <==> exp <= 1 || forall|j: int|
            0 <= j < b.coeffs.len() ==> #[trigger] b.coeffs[j] == F::spec_zero(),
        ArithExpr::Pow(Box::new(base), exp).dual_form(vars) matches Some(p) ==> {
            &&& p.constant == field::power(b.constant, exp as nat)
            &&& p.coeffs.len() == b.coeffs.len()
            &&& exp == 1 ==> p == b
            &&& exp != 1 ==> p.coeff(i) == F::spec_zero()
        },
{
    law_power_of_function(b, exp as nat, i);
}

/// A constant has zero derivatives, one for every input; a variable is the input that it names.
pub proof fn law_dual_of_leaf<F: Field>(value: F, index: usize, vars: Seq<Affine<F>>, i: int)
    ensures
        ArithExpr::Const(value).dual_form(vars) matches Some(c) && {
            &&& c.constant == value
            &&& c.coeffs.len() == vars.len()
            &&& c.coeff(i) == F::spec_zero()
        },
        index < vars.len() ==> ArithExpr::<F>::Var(index).dual_form(vars) == Some(
            vars[index as int],
        ),
{
}

/// Where an operand cannot be evaluated over dual numbers, the node cannot.
pub proof fn law_dual_needs_operands<F: Field>(
    a: ArithExpr<F>,
    b: ArithExpr<F>,
    exp: u64,
    vars: Seq<Affine<F>>,
)
    requires
        a.dual_form(vars) is None,
    ensures
        ArithExpr::Add(Box::new(a), Box::new(b)).dual_form(vars) is None,
        ArithExpr::Add(Box::new(b), Box::new(a)).dual_form(vars) is None,
        ArithExpr::Mul(Box::new(a), Box::new(b)).dual_form(vars) is None,
        ArithExpr::Mul(Box::new(b), Box::new(a)).dual_form(vars) is None,
        ArithExpr::Pow(Box::new(a), exp).dual_form(vars) is None,
{
}

/// Over inputs whose derivatives are all zero, every expression of those inputs can be evaluated,
/// whatever its degree: the real part is its value at the real parts of the inputs, and the
/// derivatives are zero.
pub proof fn law_dual_of_constant_inputs<F: Field>(e: ArithExpr<F>, vars: Seq<Affine<F>>)
    requires
        e.var_bound() <= vars.len(),
        forall|i: int, j: int|
            0 <= i < vars.len() && 0 <= j < vars[i].coeffs.len() ==> #[trigger] vars[i].coeffs[j]
                == F::spec_zero(),
    ensures
        e.dual_form(vars) matches Some(d) && d.constant == e.eval(
            |i: nat| vars[i as int].constant,
        ) && forall|j: int| 0 <= j < d.coeffs.len() ==> #[trigger] d.coeffs[j] == F::spec_zero(),
    decreases e,
{
    match e {
        ArithExpr::Const(_) => {},
        ArithExpr::Var(_) => {},
        ArithExpr::Add(left, right) => {
            law_dual_of_constant_inputs(*left, vars);
            law_dual_of_constant_inputs(*right, vars);
            F::law_add_zero(F::spec_zero());
        },
        ArithExpr::Mul(left, right) => {
            law_dual_of_constant_inputs(*left, vars);
            law_dual_of_constant_inputs(*right, vars);
        },
        ArithExpr::Pow(base, exp) => {
            law_dual_of_constant_inputs(*base, vars);
            let b = base.dual_form(vars)->0;
            law_power_of_function(b, exp as nat, 0);
        },
    }
}

/// An evaluation over dual numbers that reads no missing variable and no exponent above the
/// machine's limit is defined.
pub proof fn law_dual_is_defined<F: Field>(e: ArithExpr<F>, vars: Seq<Affine<F>>)
    requires
        e.var_bound() <= vars.len(),
        forall|part: ArithExpr<F>| #[trigger]
            e.has_part(part) ==> (part matches ArithExpr::Pow(_, exp) ==> exp <= usize::MAX),
    ensures
        e.dual_defined(vars),
    decreases e,
{
    assert(e.has_part(e));
    match e {
        ArithExpr::Const(_) => {},
        ArithExpr::Var(_) => {},
        ArithExpr::Add(left, right) => {
            assert(forall|p: ArithExpr<F>| #[trigger] left.has_part(p) ==> e.has_part(p));
            assert(forall|p: ArithExpr<F>| #[trigger] right.has_part(p) ==> e.has_part(p));
            law_dual_is_defined(*left, vars);
            law_dual_is_defined(*right, vars);
        },
        ArithExpr::Mul(left, right) => {
            assert(forall|p: ArithExpr<F>| #[trigger] left.has_part(p) ==> e.has_part(p));
            assert(forall|p: ArithExpr<F>| #[trigger] right.has_part(p) ==> e.has_part(p));
            law_dual_is_defined(*left, vars);
            law_dual_is_defined(*right, vars);
        },
        ArithExpr::Pow(base, _) => {
            assert(forall|p: ArithExpr<F>| #[trigger] base.has_part(p) ==> e.has_part(p));
            law_dual_is_defined(*base, vars);
        },
    }
}

/// The linear form of a constant has no coefficients. That of a variable has one for every index
/// up to its own, of which only the last is not zero.
pub proof fn law_linear_form_of_leaf<F: Field>(value: F, index: usize, i: int)
    ensures
        ArithExpr::Const(value).linear_form() matches Some(c) && c.constant == value
            && c.coeffs.len() == 0,
        ArithExpr::<F>::Var(index).linear_form() matches Some(v) && {
            &&& v.constant == F::spec_zero()
            &&& v.coeffs.len() == index + 1
            &&& v.coeffs[index as int] == F::spec_one()
            &&& 0 <= i < index ==> v.coeffs[i] == F::spec_zero()
        },
{
}

/// A sum has a linear form exactly where its summands have; it is the sum of theirs, over the
/// variables of both.
pub proof fn law_linear_form_of_sum<F: Field>(left: ArithExpr<F>, right: ArithExpr<F>, i: int)
    ensures
        ArithExpr::Add(Box::new(left), Box::new(right)).linear_form() is Some
            <==> left.linear_form() is Some && right.linear_form() is Some,
        ArithExpr::Add(Box::new(left), Box::new(right)).linear_form() matches Some(s) ==> {
            let l = left.linear_form()->0;
            let r = right.linear_form()->0;
            &&& s.constant == l.constant + r.constant
            &&& s.coeffs.len() == if l.coeffs.len() >= r.coeffs.len() {
                l.coeffs.len()
            } else {
                r.coeffs.len()
            }
            &&& s.coeff(i) == l.coeff(i) + r.coeff(i)
        },
{
    F::law_add_zero(F::spec_zero());
}

/// A product has a linear form exactly where its factors have and one of the two is constant; its
/// coefficients follow the product rule.
pub proof fn law_linear_form_of_product<F: Field>(left: ArithExpr<F>, right: ArithExpr<F>, i: int)
    ensures
        ArithExpr::Mul(Box::new(left), Box::new(right)).linear_form() is Some <==> {
            &&& left.linear_form() is Some
            &&& right.linear_form() is Some
            &&& (forall|j: int|
                0 <= j < left.linear_form()->0.coeffs.len()
                    ==> #[trigger] left.linear_form()->0.coeffs[j] == F::spec_zero()) || (forall|
                j: int,
            |
                0 <= j < right.linear_form()->0.coeffs.len()
                    ==> #[trigger] right.linear_form()->0.coeffs[j] == F::spec_zero())
        },
        ArithExpr::Mul(Box::new(left), Box::new(right)).linear_form() matches Some(p) ==> {
            let l = left.linear_form()->0;
            let r = right.linear_form()->0;
            &&& p.constant == l.constant * r.constant
            &&& p.coeff(i) == l.constant * r.coeff(i) + l.coeff(i) * r.constant
            &&& p.coeffs.len() == if r.is_constant() {
                l.coeffs.len()
            } else {
                r.coeffs.len()
            }
        },
{
    if left.linear_form() is Some && right.linear_form() is Some {
        law_product_of_functions(left.linear_form()->0, right.linear_form()->0, i);
    }
}

/// A power has a linear form where the exponent is zero, whatever the base; where the exponent is
/// one and the base has a linear form, which it then is; and where the linear form of the base is
/// constant.
pub proof fn law_linear_form_of_power<F: Field>(base: ArithExpr<F>, exp: u64, i: int)
    ensures
        ArithExpr::Pow(Box::new(base), exp).linear_form() is Some <==> exp == 0 || (
        base.linear_form() is Some && (exp == 1 || forall|j: int|
            0 <= j < base.linear_form()->0.coeffs.len()
                ==> #[trigger] base.linear_form()->0.coeffs[j] == F::spec_zero())),
        exp == 1 ==> ArithExpr::Pow(Box::new(base), exp).linear_form() == base.linear_form(),
        exp == 0 ==> (ArithExpr::Pow(Box::new(base), exp).linear_form() matches Some(p)
            && p.constant == F::spec_one() && p.coeffs.len() == (if base.linear_form() is Some {
            base.linear_form()->0.coeffs.len()
        } else {
            base.var_bound()
        })),
        ArithExpr::Pow(Box::new(base), exp).linear_form() matches Some(p) ==> {
            &&& base.linear_form() matches Some(b) ==> p.constant == field::power(
                b.constant,
                exp as nat,
            ) && p.coeffs.len() == b.coeffs.len()
            &&& exp != 1 ==> p.coeff(i) == F::spec_zero()
        },
{
    if base.linear_form() is Some {
        law_power_of_function(base.linear_form()->0, exp as nat, i);
    }
}

} // verus!

//! How the operations that keep or cut the tree of an expression relate to one another.
use vstd::prelude::*;
use vstd::std_specs::cmp::PartialEqSpec;
use vstd::std_specs::convert::FromSpec;
use vstd::std_specs::ops::{AddSpec, MulSpec, SubSpec};

use crate::affine::Affine;
use crate::expr::ArithExpr;
use crate::field;
use crate::field::Field;
use crate::linear::{Dual, LinearNormalForm};

verus! {

/// A constant is its value everywhere, and a variable is the coordinate that it names.
pub proof fn law_leaves_evaluate<F: Field>(value: F, index: usize, point: spec_fn(nat) -> F)
    ensures
        ArithExpr::Const(value).eval(point) == value,
        ArithExpr::<F>::Var(index).eval(point) == point(index as nat),
{
}

/// The power zero is one, the power one the base, and exponents add up in a product.
pub proof fn law_power<F: Field>(base: F, m: nat, n: nat)
    ensures
        field::power(base, 0) == F::spec_one(),
        field::power(base, 1) == base,
        field::power(base, m + n) == field::power(base, m) * field::power(base, n),
{
    field::lemma_power_one(base);
    field::lemma_power_adds(base, m, n);
}

/// Two expressions compare as equal exactly where they are the same tree.
pub proof fn law_equality_is_structural<F: Field>(a: ArithExpr<F>, b: ArithExpr<F>)
    ensures
        a.eq_spec(&b) <==> a == b,
{
}

/// Two normal forms compare as equal exactly where their constants and all their coefficients are
/// equal and they have equally many.
pub proof fn law_normal_form_equality<F: Field>(a: LinearNormalForm<F>, b: LinearNormalForm<F>)
    ensures
        a.eq_spec(&b) <==> a.constant == b.constant && a.var_coeffs@.len() == b.var_coeffs@.len()
            && forall|i: int|
            0 <= i < a.var_coeffs@.len() ==> #[trigger] a.var_coeffs@[i] == b.var_coeffs@[i],
{
    if a.constant == b.constant && a.var_coeffs@.len() == b.var_coeffs@.len() && forall|i: int|
        0 <= i < a.var_coeffs@.len() ==> #[trigger] a.var_coeffs@[i] == b.var_coeffs@[i] {
        assert(a.var_coeffs@ =~= b.var_coeffs@);
    }
}

/// The operators build one node and look at nothing below it; a difference is a sum.
pub proof fn law_operators_build_nodes<F: Field>(a: ArithExpr<F>, b: ArithExpr<F>)
    ensures
        a.add_spec(b) == ArithExpr::Add(Box::new(a), Box::new(b)),
        a.sub_spec(b) == a.add_spec(b),
        a.mul_spec(b) == ArithExpr::Mul(Box::new(a), Box::new(b)),
{
}

/// Degrees add up in a product and are multiplied by the exponent in a power; a sum has the higher
/// of the two.
pub proof fn law_degree_of_operations<F: Field>(
    a: ArithExpr<F>,
    b: ArithExpr<F>,
    value: F,
    index: usize,
    exp: u64,
)
    ensures
        ArithExpr::Const(value).total_degree() == 0,
        ArithExpr::<F>::Var(index).total_degree() == 1,
        ArithExpr::Add(Box::new(a), Box::new(b)).total_degree() >= a.total_degree(),
        ArithExpr::Add(Box::new(a), Box::new(b)).total_degree() >= b.total_degree(),
        ArithExpr::Add(Box::new(a), Box::new(b)).total_degree() == a.total_degree()
            || ArithExpr::Add(Box::new(a), Box::new(b)).total_degree() == b.total_degree(),
        ArithExpr::Mul(Box::new(a), Box::new(b)).total_degree() == a.total_degree()
            + b.total_degree(),
        ArithExpr::Pow(Box::new(a), exp).total_degree() == a.total_degree() * (exp as nat),
{
}

/// An expression is of degree zero where it has no variables, and an expression of degree zero has
/// the same value everywhere.
pub proof fn law_degree_zero_is_constant<F: Field>(
    e: ArithExpr<F>,
    p: spec_fn(nat) -> F,
    q: spec_fn(nat) -> F,
)
    ensures
        e.var_bound() == 0 ==> e.total_degree() == 0,
        e.total_degree() == 0 ==> e.eval(p) == e.eval(q),
    decreases e,
{
    match e {
        ArithExpr::Const(_) => {},
        ArithExpr::Var(_) => {},
        ArithExpr::Add(left, right) => {
            law_degree_zero_is_constant(*left, p, q);
            law_degree_zero_is_constant(*right, p, q);
        },
        ArithExpr::Mul(left, right) => {
            law_degree_zero_is_constant(*left, p, q);
            law_degree_zero_is_constant(*right, p, q);
        },
        ArithExpr::Pow(base, exp) => {
            law_degree_zero_is_constant(*base, p, q);
            let d = base.total_degree();
            assert(d * (exp as nat) == 0 ==> d == 0 || exp == 0) by (nonlinear_arith);
            assert(d == 0 ==> d * (exp as nat) == 0) by (nonlinear_arith);
        },
    }
}

/// The number of variables of an operation is the larger of those of its operands.
pub proof fn law_var_bound_of_operations<F: Field>(
    a: ArithExpr<F>,
    b: ArithExpr<F>,
    value: F,
    index: usize,
    exp: u64,
)
    ensures
        ArithExpr::Const(value).var_bound() == 0,
        ArithExpr::<F>::Var(index).var_bound() == index + 1,
        ArithExpr::Add(Box::new(a), Box::new(b)).var_bound() == ArithExpr::Mul(
            Box::new(a),
            Box::new(b),
        ).var_bound(),
        ArithExpr::Add(Box::new(a), Box::new(b)).var_bound() >= a.var_bound(),
        ArithExpr::Add(Box::new(a), Box::new(b)).var_bound() >= b.var_bound(),
        ArithExpr::Add(Box::new(a), Box::new(b)).var_bound() == a.var_bound() || ArithExpr::Add(
            Box::new(a),
            Box::new(b),
        ).var_bound() == b.var_bound(),
        ArithExpr::Pow(Box::new(a), exp).var_bound() == a.var_bound(),
{
}

/// A variable is remapped to the one that the indices name; everything else is kept.
pub proof fn law_remapped_operations<F: Field>(
    a: ArithExpr<F>,
    b: ArithExpr<F>,
    indices: Seq<usize>,
    value: F,
    index: usize,
    exp: u64,
)
    ensures
        ArithExpr::Const(value).remapped(indices) == ArithExpr::Const(value),
        index < indices.len() ==> ArithExpr::<F>::Var(index).remapped(indices) == ArithExpr::<
            F,
        >::Var(indices[index as int]),
        ArithExpr::Add(Box::new(a), Box::new(b)).remapped(indices) == ArithExpr::Add(
            Box::new(a.remapped(indices)),
            Box::new(b.remapped(indices)),
        ),
        ArithExpr::Mul(Box::new(a), Box::new(b)).remapped(indices) == ArithExpr::Mul(
            Box::new(a.remapped(indices)),
            Box::new(b.remapped(indices)),
        ),
        ArithExpr::Pow(Box::new(a), exp).remapped(indices) == ArithExpr::Pow(
            Box::new(a.remapped(indices)),
            exp,
        ),
{
}

/// Indices that name every variable itself leave the expression as it is.
pub proof fn law_remapped_by_identity<F: Field>(e: ArithExpr<F>, indices: Seq<usize>)
    requires
        e.var_bound() <= indices.len(),
        forall|i: int| 0 <= i < e.var_bound() ==> #[trigger] indices[i] == i,
    ensures
        e.remapped(indices) == e,
    decreases e,
{
    match e {
        ArithExpr::Const(_) => {},
        ArithExpr::Var(_) => {},
        ArithExpr::Add(left, right) => {
            law_remapped_by_identity(*left, indices);
            law_remapped_by_identity(*right, indices);
        },
        ArithExpr::Mul(left, right) => {
            law_remapped_by_identity(*left, indices);
            law_remapped_by_identity(*right, indices);
        },
        ArithExpr::Pow(base, _) => {
            law_remapped_by_identity(*base, indices);
        },
    }
}

/// Two remappings in turn are one remapping, by the indices of the second at those of the first.
pub proof fn law_remapped_composes<F: Field>(
    e: ArithExpr<F>,
    first: Seq<usize>,
    second: Seq<usize>,
)
    requires
        e.var_bound() <= first.len(),
    ensures
        e.remapped(first).remapped(second) == e.remapped(
            first.map_values(|i: usize| second[i as int]),
        ),
    decreases e,
{
    match e {
        ArithExpr::Const(_) => {},
        ArithExpr::Var(_) => {},
        ArithExpr::Add(left, right) => {
            law_remapped_composes(*left, first, second);
            law_remapped_composes(*right, first, second);
        },
        ArithExpr::Mul(left, right) => {
            law_remapped_composes(*left, first, second);
            law_remapped_composes(*right, first, second);
        },
        ArithExpr::Pow(base, _) => {
            law_remapped_composes(*base, first, second);
        },
    }
}

/// A remapping can be applied exactly where no variable lies beyond the indices.
pub proof fn law_remapping_needs_indices<F: Field>(e: ArithExpr<F>, count: nat)
    ensures
        e.first_var_from(count) is None <==> e.var_bound() <= count,
    decreases e,
{
    match e {
        ArithExpr::Const(_) => {},
        ArithExpr::Var(_) => {},
        ArithExpr::Add(left, right) => {
            law_remapping_needs_indices(*left, count);
            law_remapping_needs_indices(*right, count);
        },
        ArithExpr::Mul(left, right) => {
            law_remapping_needs_indices(*left, count);
            law_remapping_needs_indices(*right, count);
        },
        ArithExpr::Pow(base, _) => {
            law_remapping_needs_indices(*base, count);
        },
    }
}

/// The variable that is found missing is the first from the left: one of the left operand if that
/// has one, else that of the right operand.
pub proof fn law_first_missing_variable<F: Field>(
    a: ArithExpr<F>,
    b: ArithExpr<F>,
    index: usize,
    exp: u64,
    count: nat,
)
    ensures
        index >= count ==> ArithExpr::<F>::Var(index).first_var_from(count) == Some(index),
        a.first_var_from(count) is None ==> ArithExpr::Add(
            Box::new(a),
            Box::new(b),
        ).first_var_from(count) == b.first_var_from(count) && ArithExpr::Mul(
            Box::new(a),
            Box::new(b),
        ).first_var_from(count) == b.first_var_from(count),
        a.first_var_from(count) is Some ==> ArithExpr::Add(
            Box::new(a),
            Box::new(b),
        ).first_var_from(count) == a.first_var_from(count) && ArithExpr::Mul(
            Box::new(a),
            Box::new(b),
        ).first_var_from(count) == a.first_var_from(count),
        ArithExpr::Pow(Box::new(a), exp).first_var_from(count) == a.first_var_from(count),
{
}

/// Substitution replaces the one variable by the constant and keeps everything else.
pub proof fn law_substituted_operations<F: Field>(
    a: ArithExpr<F>,
    b: ArithExpr<F>,
    var: usize,
    value: F,
    other: F,
    index: usize,
    exp: u64,
)
    ensures
        ArithExpr::<F>::Var(var).substituted(var, value) == ArithExpr::Const(value),
        index != var ==> ArithExpr::<F>::Var(index).substituted(var, value) == ArithExpr::<F>::Var(
            index,
        ),
        ArithExpr::Const(other).substituted(var, value) == ArithExpr::Const(other),
        ArithExpr::Add(Box::new(a), Box::new(b)).substituted(var, value) == ArithExpr::Add(
            Box::new(a.substituted(var, value)),
            Box::new(b.substituted(var, value)),
        ),
        ArithExpr::Mul(Box::new(a), Box::new(b)).substituted(var, value) == ArithExpr::Mul(
            Box::new(a.substituted(var, value)),
            Box::new(b.substituted(var, value)),
        ),
        ArithExpr::Pow(Box::new(a), exp).substituted(var, value) == ArithExpr::Pow(
            Box::new(a.substituted(var, value)),
            exp,
        ),
{
}

/// Substitution for a variable that does not occur changes nothing, a second one for the same
/// variable neither, and the order of substitutions for two variables does not matter.
pub proof fn law_substitutions_commute<F: Field>(
    e: ArithExpr<F>,
    x: usize,
    y: usize,
    a: F,
    b: F,
)
    ensures
        !e.uses_var(x as int) ==> e.substituted(x, a) == e,
        e.substituted(x, a).substituted(x, b) == e.substituted(x, a),
        x != y ==> e.substituted(x, a).substituted(y, b) == e.substituted(y, b).substituted(x, a),
    decreases e,
{
    reveal_with_fuel(ArithExpr::substituted, 2);
    match e {
        ArithExpr::Const(_) => {},
        ArithExpr::Var(_) => {},
        ArithExpr::Add(left, right) => {
            law_substitutions_commute(*left, x, y, a, b);
            law_substitutions_commute(*right, x, y, a, b);
        },
        ArithExpr::Mul(left, right) => {
            law_substitutions_commute(*left, x, y, a, b);
            law_substitutions_commute(*right, x, y, a, b);
        },
        ArithExpr::Pow(base, _) => {
            law_substitutions_commute(*base, x, y, a, b);
        },
    }
}

/// The leading term of a product is the product of the leading terms, that of a power the power,
/// and that of a sum is the leading term of the summand of higher degree, or the sum of both where
/// the degrees are the same.
pub proof fn law_leading_of_operations<F: Field>(
    a: ArithExpr<F>,
    b: ArithExpr<F>,
    value: F,
    index: usize,
    exp: u64,
)
    ensures
        ArithExpr::Const(value).leading() == ArithExpr::Const(value),
        ArithExpr::<F>::Var(index).leading() == ArithExpr::<F>::Var(index),
        ArithExpr::Mul(Box::new(a), Box::new(b)).leading() == ArithExpr::Mul(
            Box::new(a.leading()),
            Box::new(b.leading()),
        ),
        ArithExpr::Pow(Box::new(a), exp).leading() == ArithExpr::Pow(Box::new(a.leading()), exp),
        a.total_degree() > b.total_degree() ==> ArithExpr::Add(Box::new(a), Box::new(b)).leading()
            == a.leading(),
        a.total_degree() < b.total_degree() ==> ArithExpr::Add(Box::new(a), Box::new(b)).leading()
            == b.leading(),
        a.total_degree() == b.total_degree() ==> ArithExpr::Add(Box::new(a), Box::new(b)).leading()
            == ArithExpr::Add(Box::new(a.leading()), Box::new(b.leading())),
{
}

/// The leading term has the degree of the expression.
pub proof fn law_leading_keeps_degree<F: Field>(e: ArithExpr<F>)
    ensures
        e.leading().total_degree() == e.total_degree(),
    decreases e,
{
    match e {
        ArithExpr::Const(_) => {},
        ArithExpr::Var(_) => {},
        ArithExpr::Add(left, right) => {
            law_leading_keeps_degree(*left);
            law_leading_keeps_degree(*right);
        },
        ArithExpr::Mul(left, right) => {
            law_leading_keeps_degree(*left);
            law_leading_keeps_degree(*right);
        },
        ArithExpr::Pow(base, _) => {
            law_leading_keeps_degree(*base);
        },
    }
}

/// Sums and products are built up from the left: one item stands alone, and every further one
/// makes a node with what was there before.
pub proof fn law_sums_are_built_from_left<F: Field>(items: Seq<ArithExpr<F>>, item: ArithExpr<F>)
    ensures
        ArithExpr::sum_of(Seq::<ArithExpr<F>>::empty()) == ArithExpr::Const(F::spec_zero()),
        ArithExpr::product_of(Seq::<ArithExpr<F>>::empty()) == ArithExpr::Const(F::spec_one()),
        ArithExpr::sum_of(seq![item]) == item,
        ArithExpr::product_of(seq![item]) == item,
        items.len() > 0 ==> ArithExpr::sum_of(items.push(item)) == ArithExpr::Add(
            Box::new(ArithExpr::sum_of(items)),
            Box::new(item),
        ),
        items.len() > 0 ==> ArithExpr::product_of(items.push(item)) == ArithExpr::Mul(
            Box::new(ArithExpr::product_of(items)),
            Box::new(item),
        ),
{
    assert(items.push(item).drop_last() =~= items);
}

/// The constant function has the constant and zero coefficients, as many as asked for; a variable
/// has the coefficient one for itself and zero for the others. The inputs of an evaluation over its
/// own variables are these variables, in order.
pub proof fn law_elementary_functions<F: Field>(c: F, index: int, n: nat, i: int)
    ensures
        Affine::flat(c, n).constant == c,
        Affine::flat(c, n).coeffs.len() == n,
        0 <= i < n ==> Affine::flat(c, n).coeffs[i] == F::spec_zero(),
        Affine::<F>::unit(index, n).constant == F::spec_zero(),
        Affine::<F>::unit(index, n).coeffs.len() == n,
        0 <= index < n ==> Affine::<F>::unit(index, n).coeffs[index] == F::spec_one(),
        0 <= i < n && i != index ==> Affine::<F>::unit(index, n).coeffs[i] == F::spec_zero(),
        ArithExpr::<F>::unit_inputs(n).len() == n,
        0 <= i < n ==> ArithExpr::<F>::unit_inputs(n)[i] == Affine::<F>::unit(i, n),
{
}

/// The coefficient of a variable is the one that is listed for it, and zero where none is.
pub proof fn law_missing_coefficients_are_zero<F: Field>(f: Affine<F>, i: int)
    ensures
        0 <= i < f.coeffs.len() ==> f.coeff(i) == f.coeffs[i],
        i >= f.coeffs.len() ==> f.coeff(i) == F::spec_zero(),
{
}

/// A dual number becomes the normal form of the same function.
pub proof fn law_dual_to_normal_form<F: Field>(d: Dual<F>)
    ensures
        LinearNormalForm::<F>::from_spec(d).constant == d.real,
        LinearNormalForm::<F>::from_spec(d).var_coeffs@ == d.derivs@,
{
}

} // verus!

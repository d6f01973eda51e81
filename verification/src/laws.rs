//! What holds of expressions as a whole.
use vstd::prelude::*;
use vstd::std_specs::ops::{AddSpec, MulSpec, SubSpec};

use crate::affine;
use crate::evaluate;
use crate::expr::ArithExpr;
use crate::field;
use crate::field::Field;
use crate::tower::TowerField;

verus! {

/// The number of variables is the least bound of their indices: every variable that occurs is
/// below it, and the one just below it occurs.
pub proof fn law_var_bound_is_least<F: Field>(e: ArithExpr<F>)
    ensures
        forall|i: int| #[trigger] e.uses_var(i) ==> 0 <= i < e.var_bound(),
        e.var_bound() > 0 ==> e.uses_var(e.var_bound() - 1),
    decreases e,
{
    match e {
        ArithExpr::Const(_) => {},
        ArithExpr::Var(_) => {},
        ArithExpr::Add(left, right) => {
            law_var_bound_is_least(*left);
            law_var_bound_is_least(*right);
            assert forall|i: int| #[trigger] e.uses_var(i) implies 0 <= i < e.var_bound() by {
                assert(left.uses_var(i) || right.uses_var(i));
            }
        },
        ArithExpr::Mul(left, right) => {
            law_var_bound_is_least(*left);
            law_var_bound_is_least(*right);
            assert forall|i: int| #[trigger] e.uses_var(i) implies 0 <= i < e.var_bound() by {
                assert(left.uses_var(i) || right.uses_var(i));
            }
        },
        ArithExpr::Pow(base, _) => {
            law_var_bound_is_least(*base);
            assert forall|i: int| #[trigger] e.uses_var(i) implies 0 <= i < e.var_bound() by {
                assert(base.uses_var(i));
            }
        },
    }
}

/// The value of an expression depends only on the variables that occur in it.
pub proof fn law_eval_reads_used_variables<F: Field>(
    e: ArithExpr<F>,
    p: spec_fn(nat) -> F,
    q: spec_fn(nat) -> F,
)
    requires
        forall|i: nat| e.uses_var(i as int) ==> #[trigger] p(i) == q(i),
    ensures
        e.eval(p) == e.eval(q),
    decreases e,
{
    match e {
        ArithExpr::Const(_) => {},
        ArithExpr::Var(index) => {
            assert(p(index as nat) == q(index as nat));
        },
        ArithExpr::Add(left, right) => {
            law_eval_reads_used_variables(*left, p, q);
            law_eval_reads_used_variables(*right, p, q);
        },
        ArithExpr::Mul(left, right) => {
            law_eval_reads_used_variables(*left, p, q);
            law_eval_reads_used_variables(*right, p, q);
        },
        ArithExpr::Pow(base, _) => {
            law_eval_reads_used_variables(*base, p, q);
        },
    }
}

/// Remapped variables read the point where they were remapped to: the remapped expression has at
/// a point the value that the expression has where variable `i` is coordinate `indices[i]`.
pub proof fn law_remapped_evaluates<F: Field>(
    e: ArithExpr<F>,
    indices: Seq<usize>,
    point: spec_fn(nat) -> F,
)
    ensures
        e.remapped(indices).eval(point) == e.eval(|i: nat| point(indices[i as int] as nat)),
    decreases e,
{
    match e {
        ArithExpr::Const(_) => {},
        ArithExpr::Var(_) => {},
        ArithExpr::Add(left, right) => {
            law_remapped_evaluates(*left, indices, point);
            law_remapped_evaluates(*right, indices, point);
        },
        ArithExpr::Mul(left, right) => {
            law_remapped_evaluates(*left, indices, point);
            law_remapped_evaluates(*right, indices, point);
        },
        ArithExpr::Pow(base, _) => {
            law_remapped_evaluates(*base, indices, point);
        },
    }
}

/// Remapping changes no degree.
pub proof fn law_remapped_keeps_degree<F: Field>(e: ArithExpr<F>, indices: Seq<usize>)
    ensures
        e.remapped(indices).total_degree() == e.total_degree(),
    decreases e,
{
    match e {
        ArithExpr::Const(_) => {},
        ArithExpr::Var(_) => {},
        ArithExpr::Add(left, right) => {
            law_remapped_keeps_degree(*left, indices);
            law_remapped_keeps_degree(*right, indices);
        },
        ArithExpr::Mul(left, right) => {
            law_remapped_keeps_degree(*left, indices);
            law_remapped_keeps_degree(*right, indices);
        },
        ArithExpr::Pow(base, _) => {
            law_remapped_keeps_degree(*base, indices);
        },
    }
}

/// Substitution fixes one coordinate: the expression has at a point the value that it had where
/// the substituted variable has the given value.
pub proof fn law_substituted_evaluates<F: Field>(
    e: ArithExpr<F>,
    var: usize,
    value: F,
    point: spec_fn(nat) -> F,
)
    ensures
        e.substituted(var, value).eval(point) == e.eval(
            |i: nat|
                if i == var {
                    value
                } else {
                    point(i)
                },
        ),
    decreases e,
{
    match e {
        ArithExpr::Const(_) => {},
        ArithExpr::Var(_) => {},
        ArithExpr::Add(left, right) => {
            law_substituted_evaluates(*left, var, value, point);
            law_substituted_evaluates(*right, var, value, point);
        },
        ArithExpr::Mul(left, right) => {
            law_substituted_evaluates(*left, var, value, point);
            law_substituted_evaluates(*right, var, value, point);
        },
        ArithExpr::Pow(base, _) => {
            law_substituted_evaluates(*base, var, value, point);
        },
    }
}

/// Substitution removes its variable and no other.
pub proof fn law_substituted_removes_variable<F: Field>(
    e: ArithExpr<F>,
    var: usize,
    value: F,
    i: int,
)
    ensures
        e.substituted(var, value).uses_var(i) <==> e.uses_var(i) && i != var,
    decreases e,
{
    match e {
        ArithExpr::Const(_) => {},
        ArithExpr::Var(_) => {},
        ArithExpr::Add(left, right) => {
            law_substituted_removes_variable(*left, var, value, i);
            law_substituted_removes_variable(*right, var, value, i);
        },
        ArithExpr::Mul(left, right) => {
            law_substituted_removes_variable(*left, var, value, i);
            law_substituted_removes_variable(*right, var, value, i);
        },
        ArithExpr::Pow(base, _) => {
            law_substituted_removes_variable(*base, var, value, i);
        },
    }
}

/// The operators have the values of the field's operations, and subtraction is undone by
/// addition where the characteristic is two.
pub proof fn law_operators_evaluate<F: Field>(
    a: ArithExpr<F>,
    b: ArithExpr<F>,
    exp: u64,
    point: spec_fn(nat) -> F,
)
    ensures
        a.add_spec(b).eval(point) == a.eval(point) + b.eval(point),
        a.mul_spec(b).eval(point) == a.eval(point) * b.eval(point),
        ArithExpr::Pow(Box::new(a), exp).eval(point) == field::power(a.eval(point), exp as nat),
        F::spec_characteristic() == 2 ==> a.sub_spec(b).eval(point) + b.eval(point) == a.eval(
            point,
        ),
{
    let (x, y) = (a.eval(point), b.eval(point));
    if F::spec_characteristic() == 2 {
        F::law_add_associates(x, y, y);
        field::lemma_double_is_zero(y);
        F::law_add_zero(x);
    }
}

/// One more item adds its value to the sum; the empty sum is zero.
pub proof fn law_sum_evaluates<F: Field>(
    items: Seq<ArithExpr<F>>,
    item: ArithExpr<F>,
    point: spec_fn(nat) -> F,
)
    ensures
        ArithExpr::sum_of(Seq::<ArithExpr<F>>::empty()).eval(point) == F::spec_zero(),
        ArithExpr::sum_of(items.push(item)).eval(point) == ArithExpr::sum_of(items).eval(point)
            + item.eval(point),
{
    assert(items.push(item).drop_last() =~= items);
    field::lemma_zero_add(item.eval(point));
}

/// One more item multiplies the product by its value; the empty product is one.
pub proof fn law_product_evaluates<F: Field>(
    items: Seq<ArithExpr<F>>,
    item: ArithExpr<F>,
    point: spec_fn(nat) -> F,
)
    ensures
        ArithExpr::product_of(Seq::<ArithExpr<F>>::empty()).eval(point) == F::spec_one(),
        ArithExpr::product_of(items.push(item)).eval(point) == ArithExpr::product_of(items).eval(
            point,
        ) * item.eval(point),
{
    assert(items.push(item).drop_last() =~= items);
    field::lemma_one_mul(item.eval(point));
}

/// The two ways to a linear normal form agree: where both give one, they give the same constant
/// and the same coefficient for every variable.
pub proof fn law_normal_forms_agree<F: Field>(e: ArithExpr<F>)
    requires
        e.linear_form() is Some,
        e.dual_form(ArithExpr::<F>::unit_inputs(e.var_bound())) is Some,
    ensures
        ({
            let direct = e.linear_form()->0;
            let dual = e.dual_form(ArithExpr::<F>::unit_inputs(e.var_bound()))->0;
            &&& direct.constant == dual.constant
            &&& forall|i: int| direct.coeff(i) == dual.coeff(i)
        }),
{
    let direct = e.linear_form()->0;
    let dual = e.dual_form(ArithExpr::<F>::unit_inputs(e.var_bound()))->0;
    assert forall|point: spec_fn(nat) -> F| #[trigger] direct.at(point) == dual.at(point) by {
        evaluate::law_linear_form_evaluates(e, point);
        evaluate::law_dual_form_of_variables_evaluates(e, point);
    }
    affine::law_values_determine_affine(direct, dual);
}

/// The normal form is determined by the values of the expression: the constant is the value at
/// the origin, and the constant and one coefficient add up to the value at a unit point.
pub proof fn law_normal_form_reads_values<F: Field>(e: ArithExpr<F>, i: nat)
    requires
        e.linear_form() is Some,
    ensures
        e.linear_form()->0.constant == e.eval(|j: nat| F::spec_zero()),
        e.linear_form()->0.constant + e.linear_form()->0.coeff(i as int) == e.eval(
            affine::unit_point(i),
        ),
{
    let form = e.linear_form()->0;
    affine::lemma_at_origin(form);
    affine::lemma_at_unit_point(form, i);
    evaluate::law_linear_form_evaluates(e, |j: nat| F::spec_zero());
    evaluate::law_linear_form_evaluates(e, affine::unit_point(i));
}

/// The normal form has no coefficient beyond the variables of the expression.
pub proof fn law_normal_form_length<F: Field>(e: ArithExpr<F>)
    requires
        e.linear_form() is Some,
    ensures
        e.linear_form()->0.coeffs.len() <= e.var_bound(),
    decreases e,
{
    match e {
        ArithExpr::Const(_) => {},
        ArithExpr::Var(_) => {},
        ArithExpr::Add(left, right) => {
            law_normal_form_length(*left);
            law_normal_form_length(*right);
        },
        ArithExpr::Mul(left, right) => {
            law_normal_form_length(*left);
            law_normal_form_length(*right);
        },
        ArithExpr::Pow(base, _) => {
            if base.linear_form() is Some {
                law_normal_form_length(*base);
            }
        },
    }
}

/// The tower level of an expression is enough for every constant that occurs in it, and no lower
/// level is.
pub proof fn law_level_bound_is_least<F: TowerField>(e: ArithExpr<F>, level: nat)
    ensures
        e.constants_fit(level) <==> e.level_bound() <= level,
    decreases e,
{
    match e {
        ArithExpr::Const(_) => {},
        ArithExpr::Var(_) => {},
        ArithExpr::Add(left, right) => {
            law_level_bound_is_least(*left, level);
            law_level_bound_is_least(*right, level);
        },
        ArithExpr::Mul(left, right) => {
            law_level_bound_is_least(*left, level);
            law_level_bound_is_least(*right, level);
        },
        ArithExpr::Pow(base, _) => {
            law_level_bound_is_least(*base, level);
        },
    }
}

impl<F: TowerField> ArithExpr<F> {
    /// Whether every constant of the expression lies in the field of that level.
    pub open spec fn constants_fit(self, level: nat) -> bool
        decreases self,
    {
        match self {
            ArithExpr::Const(value) => value.spec_min_tower_level() <= level,
            ArithExpr::Var(_) => true,
            ArithExpr::Add(left, right) => left.constants_fit(level) && right.constants_fit(level),
            ArithExpr::Mul(left, right) => left.constants_fit(level) && right.constants_fit(level),
            ArithExpr::Pow(base, _) => base.constants_fit(level),
        }
    }
}

} // verus!

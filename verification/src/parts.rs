//! The parts of an expression, and what the inspections say of them.
use vstd::prelude::*;

use crate::expr::ArithExpr;
use crate::field::Field;
use crate::tower::TowerField;

verus! {

impl<F: Field> ArithExpr<F> {
    /// Whether `part` is the expression itself or stands somewhere in its tree.
    pub open spec fn has_part(self, part: Self) -> bool
        decreases self,
    {
        self == part || match self {
            ArithExpr::Const(_) => false,
            ArithExpr::Var(_) => false,
            ArithExpr::Add(left, right) => left.has_part(part) || right.has_part(part),
            ArithExpr::Mul(left, right) => left.has_part(part) || right.has_part(part),
            ArithExpr::Pow(base, _) => base.has_part(part),
        }
    }
}

/// An expression is a part of itself, and so are its operands and whatever is a part of one of
/// its parts; a leaf has no other part.
pub proof fn law_parts<F: Field>(
    whole: ArithExpr<F>,
    middle: ArithExpr<F>,
    part: ArithExpr<F>,
    value: F,
    index: usize,
    exp: u64,
)
    ensures
        whole.has_part(whole),
        ArithExpr::Add(Box::new(whole), Box::new(part)).has_part(whole),
        ArithExpr::Add(Box::new(part), Box::new(whole)).has_part(whole),
        ArithExpr::Mul(Box::new(whole), Box::new(part)).has_part(whole),
        ArithExpr::Mul(Box::new(part), Box::new(whole)).has_part(whole),
        ArithExpr::Pow(Box::new(whole), exp).has_part(whole),
        ArithExpr::Const(value).has_part(part) ==> part == ArithExpr::Const(value),
        ArithExpr::<F>::Var(index).has_part(part) ==> part == ArithExpr::<F>::Var(index),
        whole.has_part(middle) && middle.has_part(part) ==> whole.has_part(part),
    decreases whole,
{
    reveal_with_fuel(ArithExpr::has_part, 2);
    match whole {
        ArithExpr::Const(_) => {},
        ArithExpr::Var(_) => {},
        ArithExpr::Add(left, right) => {
            law_parts(*left, middle, part, value, index, exp);
            law_parts(*right, middle, part, value, index, exp);
        },
        ArithExpr::Mul(left, right) => {
            law_parts(*left, middle, part, value, index, exp);
            law_parts(*right, middle, part, value, index, exp);
        },
        ArithExpr::Pow(base, _) => {
            law_parts(*base, middle, part, value, index, exp);
        },
    }
}

/// A variable is used exactly where it is a part of the expression.
pub proof fn law_used_variables_are_parts<F: Field>(e: ArithExpr<F>, index: usize, i: int)
    ensures
        e.uses_var(index as int) <==> e.has_part(ArithExpr::Var(index)),
        e.uses_var(i) ==> 0 <= i <= usize::MAX,
    decreases e,
{
    match e {
        ArithExpr::Const(_) => {},
        ArithExpr::Var(_) => {},
        ArithExpr::Add(left, right) => {
            law_used_variables_are_parts(*left, index, i);
            law_used_variables_are_parts(*right, index, i);
        },
        ArithExpr::Mul(left, right) => {
            law_used_variables_are_parts(*left, index, i);
            law_used_variables_are_parts(*right, index, i);
        },
        ArithExpr::Pow(base, _) => {
            law_used_variables_are_parts(*base, index, i);
        },
    }
}

/// The number of variables is above the index of every variable that is a part, and no smaller
/// number is.
pub proof fn law_var_bound_of_parts<F: Field>(e: ArithExpr<F>, index: usize)
    ensures
        e.has_part(ArithExpr::Var(index)) ==> index < e.var_bound(),
        e.var_bound() > 0 ==> e.var_bound() - 1 <= usize::MAX && e.has_part(
            ArithExpr::Var((e.var_bound() - 1) as usize),
        ),
    decreases e,
{
    match e {
        ArithExpr::Const(_) => {},
        ArithExpr::Var(_) => {},
        ArithExpr::Add(left, right) => {
            law_var_bound_of_parts(*left, index);
            law_var_bound_of_parts(*right, index);
        },
        ArithExpr::Mul(left, right) => {
            law_var_bound_of_parts(*left, index);
            law_var_bound_of_parts(*right, index);
        },
        ArithExpr::Pow(base, _) => {
            law_var_bound_of_parts(*base, index);
        },
    }
}

/// The missing variable that a remapping names is a part of the expression that lies outside the
/// bound, and one is named exactly where there is such a part. In a sum or a product it is looked
/// for on the left first.
pub proof fn law_first_var_of_parts<F: Field>(
    e: ArithExpr<F>,
    other: ArithExpr<F>,
    bound: nat,
    index: usize,
)
    ensures
        e.first_var_from(bound) matches Some(found) ==> found >= bound && e.has_part(
            ArithExpr::Var(found),
        ),
        e.has_part(ArithExpr::Var(index)) && index >= bound ==> e.first_var_from(bound) is Some,
        e.first_var_from(bound) is Some ==> ArithExpr::Add(
            Box::new(e),
            Box::new(other),
        ).first_var_from(bound) == e.first_var_from(bound) && ArithExpr::Mul(
            Box::new(e),
            Box::new(other),
        ).first_var_from(bound) == e.first_var_from(bound),
    decreases e,
{
    reveal_with_fuel(ArithExpr::first_var_from, 2);
    match e {
        ArithExpr::Const(_) => {},
        ArithExpr::Var(_) => {},
        ArithExpr::Add(left, right) => {
            law_first_var_of_parts(*left, other, bound, index);
            law_first_var_of_parts(*right, other, bound, index);
        },
        ArithExpr::Mul(left, right) => {
            law_first_var_of_parts(*left, other, bound, index);
            law_first_var_of_parts(*right, other, bound, index);
        },
        ArithExpr::Pow(base, _) => {
            law_first_var_of_parts(*base, other, bound, index);
        },
    }
}

/// No constant that is a part needs a higher level than the expression, and where the level is
/// above the lowest some constant needs it.
pub proof fn law_level_of_parts<F: TowerField>(e: ArithExpr<F>, value: F)
    ensures
        e.has_part(ArithExpr::Const(value)) ==> value.spec_min_tower_level() <= e.level_bound(),
        e.level_bound() > 0 ==> exists|c: F| #[trigger]
            e.has_part(ArithExpr::Const(c)) && c.spec_min_tower_level() == e.level_bound(),
    decreases e,
{
    match e {
        ArithExpr::Const(c) => {
            assert(e.has_part(ArithExpr::Const(c)));
        },
        ArithExpr::Var(_) => {},
        ArithExpr::Add(left, right) => {
            law_level_of_parts(*left, value);
            law_level_of_parts(*right, value);
            lemma_highest_constant_is_part(e, *left, *right);
        },
        ArithExpr::Mul(left, right) => {
            law_level_of_parts(*left, value);
            law_level_of_parts(*right, value);
            lemma_highest_constant_is_part(e, *left, *right);
        },
        ArithExpr::Pow(base, _) => {
            law_level_of_parts(*base, value);
            lemma_highest_constant_is_part(e, *base, *base);
        },
    }
}

proof fn lemma_highest_constant_is_part<F: TowerField>(
    e: ArithExpr<F>,
    left: ArithExpr<F>,
    right: ArithExpr<F>,
)
    requires
        forall|p: ArithExpr<F>| left.has_part(p) || right.has_part(p) ==> #[trigger] e.has_part(p),
        left.level_bound() > 0 ==> exists|c: F| #[trigger]
            left.has_part(ArithExpr::Const(c)) && c.spec_min_tower_level() == left.level_bound(),
        right.level_bound() > 0 ==> exists|c: F| #[trigger]
            right.has_part(ArithExpr::Const(c)) && c.spec_min_tower_level() == right.level_bound(),
        e.level_bound() == left.level_bound() || e.level_bound() == right.level_bound(),
    ensures
        e.level_bound() > 0 ==> exists|c: F| #[trigger]
            e.has_part(ArithExpr::Const(c)) && c.spec_min_tower_level() == e.level_bound(),
{
    if e.level_bound() > 0 {
        let side = if e.level_bound() == left.level_bound() {
            left
        } else {
            right
        };
        let c = choose|c: F| #[trigger]
            side.has_part(ArithExpr::Const(c)) && c.spec_min_tower_level() == side.level_bound();
        assert(e.has_part(ArithExpr::Const(c)));
    }
}

/// The degrees and exponents of an expression fit exactly where those of all its parts do.
pub proof fn law_degree_fits_of_parts<F: Field>(
    e: ArithExpr<F>,
    part: ArithExpr<F>,
    base: ArithExpr<F>,
    exp: u64,
)
    ensures
        e.degree_fits() && e.has_part(part) ==> part.total_degree() <= usize::MAX,
        e.degree_fits() && e.has_part(ArithExpr::Pow(Box::new(base), exp)) ==> exp <= usize::MAX,
        (forall|p: ArithExpr<F>| #[trigger]
            e.has_part(p) ==> p.total_degree() <= usize::MAX && (p matches ArithExpr::Pow(_, n)
                ==> n <= usize::MAX)) ==> e.degree_fits(),
    decreases e,
{
    match e {
        ArithExpr::Const(_) => {},
        ArithExpr::Var(_) => {},
        ArithExpr::Add(left, right) => {
            law_degree_fits_of_parts(*left, part, base, exp);
            law_degree_fits_of_parts(*right, part, base, exp);
            assert(forall|p: ArithExpr<F>|
                (#[trigger] left.has_part(p)) || right.has_part(p) ==> e.has_part(p));
            assert(forall|p: ArithExpr<F>| #[trigger] right.has_part(p) ==> e.has_part(p));
            assert(e.has_part(e));
        },
        ArithExpr::Mul(left, right) => {
            law_degree_fits_of_parts(*left, part, base, exp);
            law_degree_fits_of_parts(*right, part, base, exp);
            assert(forall|p: ArithExpr<F>| #[trigger] left.has_part(p) ==> e.has_part(p));
            assert(forall|p: ArithExpr<F>| #[trigger] right.has_part(p) ==> e.has_part(p));
            assert(e.has_part(e));
        },
        ArithExpr::Pow(inner, _) => {
            law_degree_fits_of_parts(*inner, part, base, exp);
            assert(forall|p: ArithExpr<F>| #[trigger] inner.has_part(p) ==> e.has_part(p));
            assert(e.has_part(e));
        },
    }
}

} // verus!

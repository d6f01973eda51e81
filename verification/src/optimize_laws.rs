//! What an optimized expression looks like, and what optimization does to each kind of node.
use vstd::prelude::*;

use crate::expr::ArithExpr;
use crate::field;
use crate::field::Field;
use crate::optimize;

verus! {

impl<F: Field> ArithExpr<F> {
    /// Whether there is nothing to simplify at the root: a sum has no zero summand, not two
    /// constants and, in characteristic 2, not twice the same summand; a product has no factor
    /// zero or one and not two constants; the base of a power is no constant and no power.
    pub open spec fn is_plain_node(self) -> bool {
        match self {
            ArithExpr::Const(_) => true,
            ArithExpr::Var(_) => true,
            ArithExpr::Add(left, right) => {
                &&& *left != ArithExpr::Const(F::spec_zero())
                &&& *right != ArithExpr::Const(F::spec_zero())
                &&& !(*left is Const && *right is Const)
                &&& F::spec_characteristic() == 2 ==> left != right
            },
            ArithExpr::Mul(left, right) => {
                &&& *left != ArithExpr::Const(F::spec_zero())
                &&& *right != ArithExpr::Const(F::spec_zero())
                &&& *left != ArithExpr::Const(F::spec_one())
                &&& *right != ArithExpr::Const(F::spec_one())
                &&& !(*left is Const && *right is Const)
            },
            ArithExpr::Pow(base, _) => !(*base is Const) && !(*base is Pow),
        }
    }
}

proof fn lemma_parts_of_settled<F: Field>(e: ArithExpr<F>, part: ArithExpr<F>)
    requires
        e.is_settled(),
        e.has_part(part),
    ensures
        part.is_settled(),
    decreases e,
{
    if e != part {
        match e {
            ArithExpr::Const(_) => {},
            ArithExpr::Var(_) => {},
            ArithExpr::Add(left, right) => {
                if left.has_part(part) {
                    lemma_parts_of_settled(*left, part);
                } else {
                    lemma_parts_of_settled(*right, part);
                }
            },
            ArithExpr::Mul(left, right) => {
                if left.has_part(part) {
                    lemma_parts_of_settled(*left, part);
                } else {
                    lemma_parts_of_settled(*right, part);
                }
            },
            ArithExpr::Pow(base, _) => {
                lemma_parts_of_settled(*base, part);
            },
        }
    }
}

/// No sum in an optimized expression has a zero summand, two constant summands or, in
/// characteristic 2, twice the same summand.
pub proof fn law_sums_in_optimized<F: Field>(
    e: ArithExpr<F>,
    left: ArithExpr<F>,
    right: ArithExpr<F>,
)
    requires
        e.optimized().has_part(ArithExpr::Add(Box::new(left), Box::new(right))),
    ensures
        left != ArithExpr::Const(F::spec_zero()),
        right != ArithExpr::Const(F::spec_zero()),
        !(left is Const && right is Const),
        F::spec_characteristic() == 2 ==> left != right,
{
    optimize::law_optimized_is_settled(e);
    lemma_parts_of_settled(e.optimized(), ArithExpr::Add(Box::new(left), Box::new(right)));
}

/// No product in an optimized expression has a factor that is the constant zero or one, or two
/// constant factors.
pub proof fn law_products_in_optimized<F: Field>(
    e: ArithExpr<F>,
    left: ArithExpr<F>,
    right: ArithExpr<F>,
)
    requires
        e.optimized().has_part(ArithExpr::Mul(Box::new(left), Box::new(right))),
    ensures
        left != ArithExpr::Const(F::spec_zero()),
        right != ArithExpr::Const(F::spec_zero()),
        left != ArithExpr::Const(F::spec_one()),
        right != ArithExpr::Const(F::spec_one()),
        !(left is Const && right is Const),
{
    optimize::law_optimized_is_settled(e);
    lemma_parts_of_settled(e.optimized(), ArithExpr::Mul(Box::new(left), Box::new(right)));
}

/// No power in an optimized expression is one of a constant or of a power.
pub proof fn law_powers_in_optimized<F: Field>(e: ArithExpr<F>, base: ArithExpr<F>, exp: u64)
    requires
        e.optimized().has_part(ArithExpr::Pow(Box::new(base), exp)),
    ensures
        !(base is Const),
        !(base is Pow),
{
    optimize::law_optimized_is_settled(e);
    lemma_parts_of_settled(e.optimized(), ArithExpr::Pow(Box::new(base), exp));
}

/// Optimization simplifies every node and changes nothing else: all nodes of an optimized
/// expression are plain, and an expression all of whose nodes are plain is left as it is.
pub proof fn law_optimized_is_plain<F: Field>(e: ArithExpr<F>)
    ensures
        forall|part: ArithExpr<F>| #[trigger]
            e.optimized().has_part(part) ==> part.is_plain_node(),
        (forall|part: ArithExpr<F>| #[trigger] e.has_part(part) ==> part.is_plain_node())
            ==> e.optimized() == e,
{
    assert forall|part: ArithExpr<F>| #[trigger]
        e.optimized().has_part(part) implies part.is_plain_node() by {
        match part {
            ArithExpr::Const(_) => {},
            ArithExpr::Var(_) => {},
            ArithExpr::Add(left, right) => law_sums_in_optimized(e, *left, *right),
            ArithExpr::Mul(left, right) => law_products_in_optimized(e, *left, *right),
            ArithExpr::Pow(base, exp) => law_powers_in_optimized(e, *base, exp),
        }
    }
    if forall|part: ArithExpr<F>| #[trigger] e.has_part(part) ==> part.is_plain_node() {
        lemma_plain_is_kept(e);
    }
}

proof fn lemma_plain_is_kept<F: Field>(e: ArithExpr<F>)
    requires
        forall|part: ArithExpr<F>| #[trigger] e.has_part(part) ==> part.is_plain_node(),
    ensures
        e.optimized() == e,
    decreases e,
{
    assert(e.has_part(e));
    match e {
        ArithExpr::Const(_) => {},
        ArithExpr::Var(_) => {},
        ArithExpr::Add(left, right) => {
            assert forall|part: ArithExpr<F>| #[trigger]
                left.has_part(part) implies part.is_plain_node() by {
                assert(e.has_part(part));
            }
            assert forall|part: ArithExpr<F>| #[trigger]
                right.has_part(part) implies part.is_plain_node() by {
                assert(e.has_part(part));
            }
            lemma_plain_is_kept(*left);
            lemma_plain_is_kept(*right);
        },
        ArithExpr::Mul(left, right) => {
            assert forall|part: ArithExpr<F>| #[trigger]
                left.has_part(part) implies part.is_plain_node() by {
                assert(e.has_part(part));
            }
            assert forall|part: ArithExpr<F>| #[trigger]
                right.has_part(part) implies part.is_plain_node() by {
                assert(e.has_part(part));
            }
            lemma_plain_is_kept(*left);
            lemma_plain_is_kept(*right);
        },
        ArithExpr::Pow(base, _) => {
            assert forall|part: ArithExpr<F>| #[trigger]
                base.has_part(part) implies part.is_plain_node() by {
                assert(e.has_part(part));
            }
            lemma_plain_is_kept(*base);
        },
    }
}

/// The operands of a node may be optimized first: that does not change the result.
pub proof fn law_optimized_operands<F: Field>(a: ArithExpr<F>, b: ArithExpr<F>, exp: u64)
    ensures
        ArithExpr::Add(Box::new(a), Box::new(b)).optimized() == ArithExpr::Add(
            Box::new(a.optimized()),
            Box::new(b.optimized()),
        ).optimized(),
        ArithExpr::Mul(Box::new(a), Box::new(b)).optimized() == ArithExpr::Mul(
            Box::new(a.optimized()),
            Box::new(b.optimized()),
        ).optimized(),
        ArithExpr::Pow(Box::new(a), exp).optimized() == ArithExpr::Pow(
            Box::new(a.optimized()),
            exp,
        ).optimized(),
{
    optimize::law_optimized_is_settled(a);
    optimize::law_optimized_is_settled(b);
}

/// Leaves are left alone and operations on constants are carried out.
pub proof fn law_optimized_constants<F: Field>(c: F, d: F, index: usize, exp: u64)
    ensures
        ArithExpr::Const(c).optimized() == ArithExpr::Const(c),
        ArithExpr::<F>::Var(index).optimized() == ArithExpr::<F>::Var(index),
        ArithExpr::Add(
            Box::new(ArithExpr::Const(c)),
            Box::new(ArithExpr::Const(d)),
        ).optimized() == ArithExpr::Const(c + d),
        ArithExpr::Mul(
            Box::new(ArithExpr::Const(c)),
            Box::new(ArithExpr::Const(d)),
        ).optimized() == ArithExpr::Const(c * d),
        ArithExpr::Pow(Box::new(ArithExpr::Const(c)), exp).optimized() == ArithExpr::Const(
            field::power(c, exp as nat),
        ),
{
    reveal_with_fuel(ArithExpr::optimized, 2);
}

/// A zero summand, a factor one and a factor zero go away, on either side of any expression, and
/// in characteristic 2 an expression cancels itself.
pub proof fn law_optimized_identities<F: Field>(a: ArithExpr<F>)
    ensures
        ArithExpr::Add(Box::new(ArithExpr::Const(F::spec_zero())), Box::new(a)).optimized()
            == a.optimized(),
        ArithExpr::Add(Box::new(a), Box::new(ArithExpr::Const(F::spec_zero()))).optimized()
            == a.optimized(),
        ArithExpr::Mul(Box::new(ArithExpr::Const(F::spec_one())), Box::new(a)).optimized()
            == a.optimized(),
        ArithExpr::Mul(Box::new(a), Box::new(ArithExpr::Const(F::spec_one()))).optimized()
            == a.optimized(),
        ArithExpr::Mul(Box::new(ArithExpr::Const(F::spec_zero())), Box::new(a)).optimized()
            == ArithExpr::Const(F::spec_zero()),
        ArithExpr::Mul(Box::new(a), Box::new(ArithExpr::Const(F::spec_zero()))).optimized()
            == ArithExpr::Const(F::spec_zero()),
        F::spec_characteristic() == 2 ==> ArithExpr::Add(Box::new(a), Box::new(a)).optimized()
            == ArithExpr::Const(F::spec_zero()),
{
    reveal_with_fuel(ArithExpr::optimized, 2);
    F::law_one_is_not_zero();
    if let ArithExpr::Const(c) = a.optimized() {
        field::lemma_zero_add(c);
        F::law_add_zero(c);
        field::lemma_one_mul(c);
        F::law_mul_one(c);
        field::lemma_mul_zero(c);
        if F::spec_characteristic() == 2 {
            field::lemma_double_is_zero(c);
        }
    }
}

/// A power of a power is one power, with the product of the exponents.
pub proof fn law_optimized_nested_powers<F: Field>(a: ArithExpr<F>, m: u64, n: u64)
    requires
        m * n <= u64::MAX,
        ArithExpr::Pow(Box::new(ArithExpr::Pow(Box::new(a), m)), n).exponents_multiply(),
    ensures
        ArithExpr::Pow(Box::new(ArithExpr::Pow(Box::new(a), m)), n).optimized()
            == ArithExpr::Pow(Box::new(a), (m * n) as u64).optimized(),
{
    reveal_with_fuel(ArithExpr::optimized, 3);
    reveal_with_fuel(ArithExpr::exponents_multiply, 3);
    match a.optimized() {
        ArithExpr::Const(c) => {
            field::lemma_power_of_power(c, m as nat, n as nat);
            assert((m as nat) * (n as nat) == (m * n) as nat) by (nonlinear_arith);
        },
        ArithExpr::Pow(_, k) => {
            assert(n * (m * k) == (m * n) * k) by (nonlinear_arith);
        },
        _ => {
            assert(n * m == m * n) by (nonlinear_arith);
        },
    }
}

/// Exponents always multiply where no two powers are nested and no power has a base that can be
/// simplified away.
pub proof fn law_exponents_multiply<F: Field>(e: ArithExpr<F>)
    requires
        forall|part: ArithExpr<F>| #[trigger] e.has_part(part) ==> part.is_plain_node(),
    ensures
        e.exponents_multiply(),
{
    law_optimized_is_plain(e);
    optimize::law_optimized_is_settled(e);
}

} // verus!

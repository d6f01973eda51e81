//! Expressions over one field as expressions over another.
use vstd::prelude::*;
use vstd::std_specs::convert::{FromSpec, TryFromSpec};

use crate::expr::ArithExpr;
use crate::field;
use crate::field::Field;

verus! {

impl<F: Field> ArithExpr<F> {
    /// The expression with `f(c)` in the place of every constant `c`.
    pub open spec fn mapped<G: Field>(self, f: spec_fn(F) -> G) -> ArithExpr<G>
        decreases self,
    {
        match self {
            ArithExpr::Const(value) => ArithExpr::Const(f(value)),
            ArithExpr::Var(index) => ArithExpr::Var(index),
            ArithExpr::Add(left, right) => ArithExpr::Add(
                Box::new(left.mapped(f)),
                Box::new(right.mapped(f)),
            ),
            ArithExpr::Mul(left, right) => ArithExpr::Mul(
                Box::new(left.mapped(f)),
                Box::new(right.mapped(f)),
            ),
            ArithExpr::Pow(base, exp) => ArithExpr::Pow(Box::new(base.mapped(f)), exp),
        }
    }

    /// The expression with the value that `f(c)` holds in the place of every constant `c`, or
    /// the error of the leftmost constant for which it holds one.
    pub open spec fn try_mapped<G: Field, E>(self, f: spec_fn(F) -> Result<G, E>) -> Result<
        ArithExpr<G>,
        E,
    >
        decreases self,
    {
        match self {
            ArithExpr::Const(value) => match f(value) {
                Ok(new_value) => Ok(ArithExpr::Const(new_value)),
                Err(error) => Err(error),
            },
            ArithExpr::Var(index) => Ok(ArithExpr::Var(index)),
            ArithExpr::Add(left, right) => match (left.try_mapped(f), right.try_mapped(f)) {
                (Ok(l), Ok(r)) => Ok(ArithExpr::Add(Box::new(l), Box::new(r))),
                (Err(error), _) => Err(error),
                (_, Err(error)) => Err(error),
            },
            ArithExpr::Mul(left, right) => match (left.try_mapped(f), right.try_mapped(f)) {
                (Ok(l), Ok(r)) => Ok(ArithExpr::Mul(Box::new(l), Box::new(r))),
                (Err(error), _) => Err(error),
                (_, Err(error)) => Err(error),
            },
            ArithExpr::Pow(base, exp) => match base.try_mapped(f) {
                Ok(b) => Ok(ArithExpr::Pow(Box::new(b), exp)),
                Err(error) => Err(error),
            },
        }
    }

    /// Whether `target` is the same tree, with constants that `from` returned for these ones.
    pub open spec fn converts_to<G: Field + From<F>>(self, target: ArithExpr<G>) -> bool
        decreases self,
    {
        match (self, target) {
            (ArithExpr::Const(value), ArithExpr::Const(new_value)) => call_ensures(
                G::from,
                (value,),
                new_value,
            ),
            (ArithExpr::Var(index), ArithExpr::Var(new_index)) => index == new_index,
            (ArithExpr::Add(l, r), ArithExpr::Add(new_l, new_r)) => l.converts_to(*new_l)
                && r.converts_to(*new_r),
            (ArithExpr::Mul(l, r), ArithExpr::Mul(new_l, new_r)) => l.converts_to(*new_l)
                && r.converts_to(*new_r),
            (ArithExpr::Pow(b, e), ArithExpr::Pow(new_b, new_e)) => b.converts_to(*new_b) && e
                == new_e,
            _ => false,
        }
    }

    /// Whether `try_from` may return a value for every constant.
    pub open spec fn is_convertible<G: Field + TryFrom<F>>(self) -> bool
        decreases self,
    {
        match self {
            ArithExpr::Const(value) => exists|new_value: G|
                call_ensures(G::try_from, (value,), Ok(new_value)),
            ArithExpr::Var(_) => true,
            ArithExpr::Add(left, right) => left.is_convertible::<G>() && right.is_convertible::<
                G,
            >(),
            ArithExpr::Mul(left, right) => left.is_convertible::<G>() && right.is_convertible::<
                G,
            >(),
            ArithExpr::Pow(base, _) => base.is_convertible::<G>(),
        }
    }

    /// Whether `target` is the same tree, with constants that `try_from` returned for these ones,
    /// or an error that it returned for one of them after it had converted all to the left of it.
    pub open spec fn tries_to<G: Field + TryFrom<F>>(
        self,
        target: Result<ArithExpr<G>, <G as TryFrom<F>>::Error>,
    ) -> bool
        decreases self,
    {
        match self {
            ArithExpr::Const(value) => match target {
                Ok(ArithExpr::Const(new_value)) => call_ensures(
                    G::try_from,
                    (value,),
                    Ok(new_value),
                ),
                Ok(_) => false,
                Err(error) => call_ensures(G::try_from, (value,), Err(error)),
            },
            ArithExpr::Var(index) => target == Ok::<ArithExpr<G>, <G as TryFrom<F>>::Error>(
                ArithExpr::Var(index),
            ),
            ArithExpr::Add(left, right) => match target {
                Ok(ArithExpr::Add(l, r)) => left.tries_to::<G>(Ok(*l)) && right.tries_to::<G>(
                    Ok(*r),
                ),
                Ok(_) => false,
                Err(error) => left.tries_to::<G>(Err(error)) || (left.is_convertible::<G>()
                    && right.tries_to::<G>(Err(error))),
            },
            ArithExpr::Mul(left, right) => match target {
                Ok(ArithExpr::Mul(l, r)) => left.tries_to::<G>(Ok(*l)) && right.tries_to::<G>(
                    Ok(*r),
                ),
                Ok(_) => false,
                Err(error) => left.tries_to::<G>(Err(error)) || (left.is_convertible::<G>()
                    && right.tries_to::<G>(Err(error))),
            },
            ArithExpr::Pow(base, exp) => match target {
                Ok(ArithExpr::Pow(b, new_exp)) => base.tries_to::<G>(Ok(*b)) && exp == new_exp,
                Ok(_) => false,
                Err(error) => base.tries_to::<G>(Err(error)),
            },
        }
    }

    pub fn convert_field<FTgt: Field + From<F>>(&self) -> (r: ArithExpr<FTgt>)
        ensures
            self.converts_to(r),
            FTgt::obeys_from_spec() ==> r == self.mapped(|value: F| FTgt::from_spec(value)),
        decreases self,
    {
        match self {
            ArithExpr::Const(value) => ArithExpr::Const(FTgt::from(*value)),
            ArithExpr::Var(index) => ArithExpr::Var(*index),
            ArithExpr::Add(left, right) => {
                let new_left = left.convert_field();
                let new_right = right.convert_field();
                ArithExpr::Add(Box::new(new_left), Box::new(new_right))
            },
            ArithExpr::Mul(left, right) => {
                let new_left = left.convert_field();
                let new_right = right.convert_field();
                ArithExpr::Mul(Box::new(new_left), Box::new(new_right))
            },
            ArithExpr::Pow(base, exp) => {
                let new_base = base.convert_field();
                ArithExpr::Pow(Box::new(new_base), *exp)
            },
        }
    }

    pub fn try_convert_field<FTgt: Field + TryFrom<F>>(&self) -> (r: Result<
        ArithExpr<FTgt>,
        <FTgt as TryFrom<F>>::Error,
    >)
        ensures
            self.tries_to::<FTgt>(r),
            FTgt::obeys_try_from_spec() ==> r == self.try_mapped(
                |value: F| FTgt::try_from_spec(value),
            ),
        decreases self,
    {
        match self {
            ArithExpr::Const(value) => match FTgt::try_from(*value) {
                Ok(new_value) => Ok(ArithExpr::Const(new_value)),
                Err(error) => Err(error),
            },
            ArithExpr::Var(index) => Ok(ArithExpr::Var(*index)),
            ArithExpr::Add(left, right) => match left.try_convert_field::<FTgt>() {
                Err(error) => Err(error),
                Ok(l) => match right.try_convert_field::<FTgt>() {
                    Err(error) => {
                        proof {
                            lemma_converted_is_convertible::<F, FTgt>(**left, l);
                        }
                        Err(error)
                    },
                    Ok(r) => Ok(ArithExpr::Add(Box::new(l), Box::new(r))),
                },
            },
            ArithExpr::Mul(left, right) => match left.try_convert_field::<FTgt>() {
                Err(error) => Err(error),
                Ok(l) => match right.try_convert_field::<FTgt>() {
                    Err(error) => {
                        proof {
                            lemma_converted_is_convertible::<F, FTgt>(**left, l);
                        }
                        Err(error)
                    },
                    Ok(r) => Ok(ArithExpr::Mul(Box::new(l), Box::new(r))),
                },
            },
            ArithExpr::Pow(base, exp) => match base.try_convert_field::<FTgt>() {
                Err(error) => Err(error),
                Ok(b) => Ok(ArithExpr::Pow(Box::new(b), *exp)),
            },
        }
    }
}

proof fn lemma_converted_is_convertible<F: Field, G: Field + TryFrom<F>>(
    e: ArithExpr<F>,
    target: ArithExpr<G>,
)
    requires
        e.tries_to::<G>(Ok(target)),
    ensures
        e.is_convertible::<G>(),
    decreases e,
{
    match (e, target) {
        (ArithExpr::Add(left, right), ArithExpr::Add(l, r)) => {
            lemma_converted_is_convertible::<F, G>(*left, *l);
            lemma_converted_is_convertible::<F, G>(*right, *r);
        },
        (ArithExpr::Mul(left, right), ArithExpr::Mul(l, r)) => {
            lemma_converted_is_convertible::<F, G>(*left, *l);
            lemma_converted_is_convertible::<F, G>(*right, *r);
        },
        (ArithExpr::Pow(base, _), ArithExpr::Pow(b, _)) => {
            lemma_converted_is_convertible::<F, G>(*base, *b);
        },
        _ => {},
    }
}

/// Whether `f` carries the arithmetic of one field over to another.
pub open spec fn is_homomorphism<F: Field, G: Field>(f: spec_fn(F) -> G) -> bool {
    &&& f(F::spec_one()) == G::spec_one()
    &&& forall|a: F, b: F| #[trigger] f(a + b) == f(a) + f(b)
    &&& forall|a: F, b: F| #[trigger] f(a * b) == f(a) * f(b)
}

proof fn lemma_homomorphism_of_power<F: Field, G: Field>(f: spec_fn(F) -> G, base: F, exp: nat)
    requires
        is_homomorphism(f),
    ensures
        f(field::power(base, exp)) == field::power(f(base), exp),
    decreases exp,
{
    if exp > 0 {
        lemma_homomorphism_of_power(f, base, (exp - 1) as nat);
        assert(f(base * field::power(base, (exp - 1) as nat)) == f(base) * f(
            field::power(base, (exp - 1) as nat),
        ));
    }
}

/// Conversion along a homomorphism keeps the meaning: the converted expression has, at the
/// converted point, the converted value.
pub proof fn law_mapped_evaluates<F: Field, G: Field>(
    e: ArithExpr<F>,
    f: spec_fn(F) -> G,
    point: spec_fn(nat) -> F,
)
    requires
        is_homomorphism(f),
    ensures
        e.mapped(f).eval(|i: nat| f(point(i))) == f(e.eval(point)),
    decreases e,
{
    match e {
        ArithExpr::Const(_) => {},
        ArithExpr::Var(_) => {},
        ArithExpr::Add(left, right) => {
            law_mapped_evaluates(*left, f, point);
            law_mapped_evaluates(*right, f, point);
        },
        ArithExpr::Mul(left, right) => {
            law_mapped_evaluates(*left, f, point);
            law_mapped_evaluates(*right, f, point);
        },
        ArithExpr::Pow(base, exp) => {
            law_mapped_evaluates(*base, f, point);
            lemma_homomorphism_of_power(f, base.eval(point), exp as nat);
        },
    }
}

/// A conversion that undoes another on every constant undoes it on every expression.
pub proof fn law_try_mapped_undoes_mapped<F: Field, G: Field, E>(
    e: ArithExpr<F>,
    up: spec_fn(F) -> G,
    down: spec_fn(G) -> Result<F, E>,
)
    requires
        forall|value: F| #[trigger] down(up(value)) == Ok::<F, E>(value),
    ensures
        e.mapped(up).try_mapped(down) == Ok::<ArithExpr<F>, E>(e),
    decreases e,
{
    match e {
        ArithExpr::Const(_) => {},
        ArithExpr::Var(_) => {},
        ArithExpr::Add(left, right) => {
            law_try_mapped_undoes_mapped(*left, up, down);
            law_try_mapped_undoes_mapped(*right, up, down);
        },
        ArithExpr::Mul(left, right) => {
            law_try_mapped_undoes_mapped(*left, up, down);
            law_try_mapped_undoes_mapped(*right, up, down);
        },
        ArithExpr::Pow(base, _) => {
            law_try_mapped_undoes_mapped(*base, up, down);
        },
    }
}

/// A conversion whose successes another one undoes on every constant has its successes undone on
/// every expression.
pub proof fn law_mapped_undoes_try_mapped<F: Field, G: Field, E>(
    e: ArithExpr<F>,
    down: spec_fn(F) -> Result<G, E>,
    up: spec_fn(G) -> F,
    converted: ArithExpr<G>,
)
    requires
        forall|value: F| (#[trigger] down(value)) matches Ok(new_value) ==> up(new_value) == value,
        e.try_mapped(down) == Ok::<ArithExpr<G>, E>(converted),
    ensures
        converted.mapped(up) == e,
    decreases e,
{
    match e {
        ArithExpr::Const(value) => {
            assert(down(value) matches Ok(new_value) && up(new_value) == value);
        },
        ArithExpr::Var(_) => {},
        ArithExpr::Add(left, right) => {
            law_mapped_undoes_try_mapped(*left, down, up, left.try_mapped(down)->Ok_0);
            law_mapped_undoes_try_mapped(*right, down, up, right.try_mapped(down)->Ok_0);
        },
        ArithExpr::Mul(left, right) => {
            law_mapped_undoes_try_mapped(*left, down, up, left.try_mapped(down)->Ok_0);
            law_mapped_undoes_try_mapped(*right, down, up, right.try_mapped(down)->Ok_0);
        },
        ArithExpr::Pow(base, _) => {
            law_mapped_undoes_try_mapped(*base, down, up, base.try_mapped(down)->Ok_0);
        },
    }
}

/// Conversion succeeds exactly where it does on every constant that is a part of the expression;
/// otherwise the error is that of one of them.
pub proof fn law_try_mapped_reads_constants<F: Field, G: Field, E>(
    e: ArithExpr<F>,
    f: spec_fn(F) -> Result<G, E>,
    value: F,
)
    ensures
        e.try_mapped(f) is Ok && e.has_part(ArithExpr::Const(value)) ==> f(value) is Ok,
        e.try_mapped(f) matches Err(error) ==> exists|c: F| #[trigger]
            e.has_part(ArithExpr::Const(c)) && f(c) == Err::<G, E>(error),
    decreases e,
{
    match e {
        ArithExpr::Const(c) => {
            assert(e.has_part(ArithExpr::Const(c)));
        },
        ArithExpr::Var(_) => {},
        ArithExpr::Add(left, right) => {
            law_try_mapped_reads_constants(*left, f, value);
            law_try_mapped_reads_constants(*right, f, value);
            lemma_refused_constant_is_part(e, *left, *right, f);
        },
        ArithExpr::Mul(left, right) => {
            law_try_mapped_reads_constants(*left, f, value);
            law_try_mapped_reads_constants(*right, f, value);
            lemma_refused_constant_is_part(e, *left, *right, f);
        },
        ArithExpr::Pow(base, _) => {
            law_try_mapped_reads_constants(*base, f, value);
            lemma_refused_constant_is_part(e, *base, *base, f);
        },
    }
}

proof fn lemma_refused_constant_is_part<F: Field, G: Field, E>(
    e: ArithExpr<F>,
    left: ArithExpr<F>,
    right: ArithExpr<F>,
    f: spec_fn(F) -> Result<G, E>,
)
    requires
        forall|p: ArithExpr<F>| left.has_part(p) || right.has_part(p) ==> #[trigger] e.has_part(p),
        left.try_mapped(f) matches Err(error) ==> exists|c: F| #[trigger]
            left.has_part(ArithExpr::Const(c)) && f(c) == Err::<G, E>(error),
        right.try_mapped(f) matches Err(error) ==> exists|c: F| #[trigger]
            right.has_part(ArithExpr::Const(c)) && f(c) == Err::<G, E>(error),
        e.try_mapped(f) matches Err(error) ==> left.try_mapped(f) == Err::<ArithExpr<G>, E>(error)
            || right.try_mapped(f) == Err::<ArithExpr<G>, E>(error),
    ensures
        e.try_mapped(f) matches Err(error) ==> exists|c: F| #[trigger]
            e.has_part(ArithExpr::Const(c)) && f(c) == Err::<G, E>(error),
{
    if let Err(error) = e.try_mapped(f) {
        let side = if left.try_mapped(f) == Err::<ArithExpr<G>, E>(error) {
            left
        } else {
            right
        };
        let c = choose|c: F| #[trigger]
            side.has_part(ArithExpr::Const(c)) && f(c) == Err::<G, E>(error);
        assert(e.has_part(ArithExpr::Const(c)));
    }
}

/// Of two operands that are refused, the left one decides the error.
pub proof fn law_try_mapped_stops_at_left<F: Field, G: Field, E>(
    left: ArithExpr<F>,
    right: ArithExpr<F>,
    f: spec_fn(F) -> Result<G, E>,
)
    requires
        left.try_mapped(f) is Err,
    ensures
        ArithExpr::Add(Box::new(left), Box::new(right)).try_mapped(f) == left.try_mapped(f),
        ArithExpr::Mul(Box::new(left), Box::new(right)).try_mapped(f) == left.try_mapped(f),
{
}

/// Conversion by the identity leaves an expression as it is, and two conversions in turn are the
/// conversion by one after the other.
pub proof fn law_mapped_composes<F: Field, G: Field, H: Field>(
    e: ArithExpr<F>,
    f: spec_fn(F) -> G,
    g: spec_fn(G) -> H,
)
    ensures
        e.mapped(|value: F| value) == e,
        e.mapped(f).mapped(g) == e.mapped(|value: F| g(f(value))),
    decreases e,
{
    match e {
        ArithExpr::Const(_) => {},
        ArithExpr::Var(_) => {},
        ArithExpr::Add(left, right) => {
            law_mapped_composes(*left, f, g);
            law_mapped_composes(*right, f, g);
        },
        ArithExpr::Mul(left, right) => {
            law_mapped_composes(*left, f, g);
            law_mapped_composes(*right, f, g);
        },
        ArithExpr::Pow(base, _) => {
            law_mapped_composes(*base, f, g);
        },
    }
}

/// Conversion goes through the operations and keeps variables and exponents.
pub proof fn law_mapped_operations<F: Field, G: Field>(
    a: ArithExpr<F>,
    b: ArithExpr<F>,
    f: spec_fn(F) -> G,
    value: F,
    index: usize,
    exp: u64,
)
    ensures
        ArithExpr::Const(value).mapped(f) == ArithExpr::Const(f(value)),
        ArithExpr::<F>::Var(index).mapped(f) == ArithExpr::<G>::Var(index),
        ArithExpr::Add(Box::new(a), Box::new(b)).mapped(f) == ArithExpr::Add(
            Box::new(a.mapped(f)),
            Box::new(b.mapped(f)),
        ),
        ArithExpr::Mul(Box::new(a), Box::new(b)).mapped(f) == ArithExpr::Mul(
            Box::new(a.mapped(f)),
            Box::new(b.mapped(f)),
        ),
        ArithExpr::Pow(Box::new(a), exp).mapped(f) == ArithExpr::Pow(Box::new(a.mapped(f)), exp),
{
}

/// A conversion that is never refused is the conversion of every constant.
pub proof fn law_try_mapped_is_mapped<F: Field, G: Field, E>(e: ArithExpr<F>, f: spec_fn(F) -> G)
    ensures
        e.try_mapped(|value: F| Ok::<G, E>(f(value))) == Ok::<ArithExpr<G>, E>(e.mapped(f)),
    decreases e,
{
    match e {
        ArithExpr::Const(_) => {},
        ArithExpr::Var(_) => {},
        ArithExpr::Add(left, right) => {
            law_try_mapped_is_mapped::<F, G, E>(*left, f);
            law_try_mapped_is_mapped::<F, G, E>(*right, f);
        },
        ArithExpr::Mul(left, right) => {
            law_try_mapped_is_mapped::<F, G, E>(*left, f);
            law_try_mapped_is_mapped::<F, G, E>(*right, f);
        },
        ArithExpr::Pow(base, _) => {
            law_try_mapped_is_mapped::<F, G, E>(*base, f);
        },
    }
}

/// An expression is the conversion of another, as `converts_to` has it, only where both are the
/// same tree up to the constants.
pub proof fn law_conversion_keeps_shape<F: Field, G: Field + From<F>>(
    e: ArithExpr<F>,
    target: ArithExpr<G>,
)
    requires
        e.converts_to(target),
    ensures
        e.mapped(|value: F| F::spec_zero()) == target.mapped(|value: G| F::spec_zero()),
    decreases e,
{
    match (e, target) {
        (ArithExpr::Add(left, right), ArithExpr::Add(l, r)) => {
            law_conversion_keeps_shape(*left, *l);
            law_conversion_keeps_shape(*right, *r);
        },
        (ArithExpr::Mul(left, right), ArithExpr::Mul(l, r)) => {
            law_conversion_keeps_shape(*left, *l);
            law_conversion_keeps_shape(*right, *r);
        },
        (ArithExpr::Pow(base, _), ArithExpr::Pow(b, _)) => {
            law_conversion_keeps_shape(*base, *b);
        },
        _ => {},
    }
}

} // verus!

//! Affine functions: a constant plus a weighted sum of variables. Dual numbers and linear normal
//! forms both stand for one.
use vstd::prelude::*;

use crate::field;
use crate::field::Field;

verus! {

/// The function `constant + coeffs[0] * x0 + coeffs[1] * x1 + ...`.
#[verifier::ext_equal]
pub struct Affine<F> {
    pub constant: F,
    pub coeffs: Seq<F>,
}

/// `coeffs[0] * point(0) + ... + coeffs[n - 1] * point(n - 1)`, where a missing coefficient is
/// zero.
pub open spec fn weighted_sum<F: Field>(coeffs: Seq<F>, n: nat, point: spec_fn(nat) -> F) -> F
    decreases n,
{
    if n == 0 {
        F::spec_zero()
    } else {
        weighted_sum(coeffs, (n - 1) as nat, point) + coeff_of(coeffs, n - 1) * point((n - 1) as nat)
    }
}

/// The coefficient of variable `i`; zero beyond the end.
pub open spec fn coeff_of<F: Field>(coeffs: Seq<F>, i: int) -> F {
    if 0 <= i < coeffs.len() {
        coeffs[i]
    } else {
        F::spec_zero()
    }
}

impl<F: Field> Affine<F> {
    /// The value where variable `i` has the value `point(i)`.
    pub open spec fn at(self, point: spec_fn(nat) -> F) -> F {
        self.constant + weighted_sum(self.coeffs, self.coeffs.len(), point)
    }

    /// The coefficient of variable `i`.
    pub open spec fn coeff(self, i: int) -> F {
        coeff_of(self.coeffs, i)
    }

    /// The constant function of `n` variables.
    pub open spec fn flat(constant: F, n: nat) -> Self {
        Affine { constant, coeffs: Seq::new(n, |i: int| F::spec_zero()) }
    }

    /// The function of `n` variables whose value is that of variable `index`.
    pub open spec fn unit(index: int, n: nat) -> Self {
        Affine {
            constant: F::spec_zero(),
            coeffs: Seq::new(
                n,
                |i: int|
                    if i == index {
                        F::spec_one()
                    } else {
                        F::spec_zero()
                    },
            ),
        }
    }

    pub open spec fn is_constant(self) -> bool {
        field::is_all_zero(self.coeffs)
    }

    /// The sum, over the variables of either function.
    pub open spec fn plus(self, rhs: Self) -> Self {
        Affine {
            constant: self.constant + rhs.constant,
            coeffs: Seq::new(
                crate::expr::max(self.coeffs.len(), rhs.coeffs.len()),
                |i: int| self.coeff(i) + rhs.coeff(i),
            ),
        }
    }

    /// The sum, over the variables that both functions have.
    pub open spec fn plus_common(self, rhs: Self) -> Self {
        Affine {
            constant: self.constant + rhs.constant,
            coeffs: Seq::new(
                if self.coeffs.len() <= rhs.coeffs.len() {
                    self.coeffs.len()
                } else {
                    rhs.coeffs.len()
                },
                |i: int| self.coeffs[i] + rhs.coeffs[i],
            ),
        }
    }

    /// The product, where one of the functions is constant.
    pub open spec fn times(self, rhs: Self) -> Option<Self> {
        if self.is_constant() && rhs.is_constant() {
            Some(Self::flat(self.constant * rhs.constant, self.coeffs.len()))
        } else if self.is_constant() {
            Some(
                Affine {
                    constant: self.constant * rhs.constant,
                    coeffs: rhs.coeffs.map_values(|d: F| self.constant * d),
                },
            )
        } else if rhs.is_constant() {
            Some(
                Affine {
                    constant: self.constant * rhs.constant,
                    coeffs: self.coeffs.map_values(|d: F| d * rhs.constant),
                },
            )
        } else {
            None
        }
    }

    /// The power, where the function is constant or the exponent is at most one.
    pub open spec fn raised(self, exp: nat) -> Option<Self> {
        if exp == 0 {
            Some(Self::flat(F::spec_one(), self.coeffs.len()))
        } else if exp == 1 {
            Some(self)
        } else if self.is_constant() {
            Some(Self::flat(field::power(self.constant, exp), self.coeffs.len()))
        } else {
            None
        }
    }
}

/// The coefficients beyond the end weigh nothing.
pub proof fn lemma_weighted_sum_extends<F: Field>(coeffs: Seq<F>, n: nat, point: spec_fn(nat) -> F)
    requires
        n >= coeffs.len(),
    ensures
        weighted_sum(coeffs, n, point) == weighted_sum(coeffs, coeffs.len(), point),
    decreases n,
{
    if n > coeffs.len() {
        lemma_weighted_sum_extends(coeffs, (n - 1) as nat, point);
        field::lemma_mul_zero(point((n - 1) as nat));
        F::law_add_zero(weighted_sum(coeffs, (n - 1) as nat, point));
    }
}

pub proof fn lemma_weighted_sum_of_zeros<F: Field>(coeffs: Seq<F>, n: nat, point: spec_fn(nat) -> F)
    requires
        field::is_all_zero(coeffs),
    ensures
        weighted_sum(coeffs, n, point) == F::spec_zero(),
    decreases n,
{
    if n > 0 {
        lemma_weighted_sum_of_zeros(coeffs, (n - 1) as nat, point);
        field::lemma_mul_zero(point((n - 1) as nat));
        F::law_add_zero(F::spec_zero());
    }
}

proof fn lemma_weighted_sum_adds<F: Field>(
    a: Seq<F>,
    b: Seq<F>,
    sum: Seq<F>,
    n: nat,
    point: spec_fn(nat) -> F,
)
    requires
        forall|i: int| 0 <= i < n ==> #[trigger] coeff_of(sum, i) == coeff_of(a, i) + coeff_of(b, i),
    ensures
        weighted_sum(sum, n, point) == weighted_sum(a, n, point) + weighted_sum(b, n, point),
    decreases n,
{
    if n == 0 {
        F::law_add_zero(F::spec_zero());
    } else {
        let m = (n - 1) as nat;
        lemma_weighted_sum_adds(a, b, sum, m, point);
        let x = point(m);
        assert(coeff_of(sum, m as int) == coeff_of(a, m as int) + coeff_of(b, m as int));
        field::lemma_mul_distributes_right(coeff_of(a, m as int), coeff_of(b, m as int), x);
        field::lemma_add_swaps_middle(
            weighted_sum(a, m, point),
            weighted_sum(b, m, point),
            coeff_of(a, m as int) * x,
            coeff_of(b, m as int) * x,
        );
    }
}

proof fn lemma_weighted_sum_scales<F: Field>(
    factor: F,
    a: Seq<F>,
    scaled: Seq<F>,
    n: nat,
    point: spec_fn(nat) -> F,
)
    requires
        forall|i: int| 0 <= i < n ==> #[trigger] coeff_of(scaled, i) == factor * coeff_of(a, i),
    ensures
        weighted_sum(scaled, n, point) == factor * weighted_sum(a, n, point),
    decreases n,
{
    if n == 0 {
        field::lemma_mul_zero(factor);
    } else {
        let m = (n - 1) as nat;
        lemma_weighted_sum_scales(factor, a, scaled, m, point);
        let x = point(m);
        assert(coeff_of(scaled, m as int) == factor * coeff_of(a, m as int));
        F::law_mul_associates(factor, coeff_of(a, m as int), x);
        F::law_mul_distributes(factor, weighted_sum(a, m, point), coeff_of(a, m as int) * x);
    }
}

/// A constant function has its constant as its value everywhere.
pub proof fn lemma_constant_at<F: Field>(f: Affine<F>, point: spec_fn(nat) -> F)
    requires
        f.is_constant(),
    ensures
        f.at(point) == f.constant,
{
    lemma_weighted_sum_of_zeros(f.coeffs, f.coeffs.len(), point);
    F::law_add_zero(f.constant);
}

proof fn lemma_weighted_sum_of_unit<F: Field>(
    index: int,
    coeffs: Seq<F>,
    n: nat,
    point: spec_fn(nat) -> F,
)
    requires
        0 <= index < coeffs.len(),
        n <= coeffs.len(),
        coeffs == Affine::<F>::unit(index, coeffs.len()).coeffs,
    ensures
        weighted_sum(coeffs, n, point) == (if index < n {
            point(index as nat)
        } else {
            F::spec_zero()
        }),
    decreases n,
{
    if n > 0 {
        let m = (n - 1) as nat;
        lemma_weighted_sum_of_unit(index, coeffs, m, point);
        if m == index {
            field::lemma_one_mul(point(m));
            field::lemma_zero_add(point(m));
        } else {
            field::lemma_mul_zero(point(m));
            F::law_add_zero(weighted_sum(coeffs, m, point));
        }
    }
}

pub proof fn lemma_unit_at<F: Field>(index: int, n: nat, point: spec_fn(nat) -> F)
    requires
        0 <= index < n,
    ensures
        Affine::<F>::unit(index, n).at(point) == point(index as nat),
{
    lemma_weighted_sum_of_unit(index, Affine::<F>::unit(index, n).coeffs, n, point);
    field::lemma_zero_add(point(index as nat));
}

pub proof fn lemma_plus_at<F: Field>(a: Affine<F>, b: Affine<F>, point: spec_fn(nat) -> F)
    ensures
        a.plus(b).at(point) == a.at(point) + b.at(point),
{
    let sum = a.plus(b);
    let n = sum.coeffs.len();
    assert forall|i: int| 0 <= i < n implies #[trigger] coeff_of(sum.coeffs, i) == coeff_of(
        a.coeffs,
        i,
    ) + coeff_of(b.coeffs, i) by {
        assert(sum.coeffs[i] == a.coeff(i) + b.coeff(i));
    }
    lemma_weighted_sum_adds(a.coeffs, b.coeffs, sum.coeffs, n, point);
    lemma_weighted_sum_extends(a.coeffs, n, point);
    lemma_weighted_sum_extends(b.coeffs, n, point);
    field::lemma_add_swaps_middle(
        a.constant,
        b.constant,
        weighted_sum(a.coeffs, n, point),
        weighted_sum(b.coeffs, n, point),
    );
}

/// Functions of equally many variables have all their variables in common.
pub proof fn lemma_plus_common_is_plus<F: Field>(a: Affine<F>, b: Affine<F>)
    requires
        a.coeffs.len() == b.coeffs.len(),
    ensures
        a.plus_common(b) == a.plus(b),
{
    assert(a.plus_common(b) =~= a.plus(b));
}

pub proof fn lemma_times_at<F: Field>(a: Affine<F>, b: Affine<F>, point: spec_fn(nat) -> F)
    requires
        a.times(b) is Some,
    ensures
        a.times(b)->0.at(point) == a.at(point) * b.at(point),
{
    let product = a.times(b)->0;
    if a.is_constant() && b.is_constant() {
        lemma_constant_at(a, point);
        lemma_constant_at(b, point);
        lemma_constant_at(product, point);
    } else if a.is_constant() {
        lemma_constant_at(a, point);
        let n = b.coeffs.len();
        lemma_weighted_sum_scales(a.constant, b.coeffs, product.coeffs, n, point);
        F::law_mul_distributes(a.constant, b.constant, weighted_sum(b.coeffs, n, point));
    } else {
        lemma_constant_at(b, point);
        let n = a.coeffs.len();
        assert forall|i: int| 0 <= i < n implies #[trigger] coeff_of(product.coeffs, i)
            == b.constant * coeff_of(a.coeffs, i) by {
            F::law_mul_commutes(a.coeffs[i], b.constant);
        }
        lemma_weighted_sum_scales(b.constant, a.coeffs, product.coeffs, n, point);
        F::law_mul_distributes(b.constant, a.constant, weighted_sum(a.coeffs, n, point));
        F::law_mul_commutes(b.constant, a.constant);
        F::law_mul_commutes(a.at(point), b.constant);
    }
}

pub proof fn lemma_raised_at<F: Field>(a: Affine<F>, exp: nat, point: spec_fn(nat) -> F)
    requires
        a.raised(exp) is Some,
    ensures
        a.raised(exp)->0.at(point) == field::power(a.at(point), exp),
{
    if exp == 0 {
        lemma_constant_at(a.raised(exp)->0, point);
    } else if exp == 1 {
        field::lemma_power_one(a.at(point));
    } else {
        lemma_constant_at(a, point);
        lemma_constant_at(a.raised(exp)->0, point);
    }
}

/// The point where variable `index` is one and every other variable is zero.
pub open spec fn unit_point<F: Field>(index: nat) -> spec_fn(nat) -> F {
    |i: nat|
        if i == index {
            F::spec_one()
        } else {
            F::spec_zero()
        }
}

proof fn lemma_weighted_sum_at_unit_point<F: Field>(coeffs: Seq<F>, index: nat, n: nat)
    ensures
        weighted_sum(coeffs, n, unit_point::<F>(index)) == (if index < n {
            coeff_of(coeffs, index as int)
        } else {
            F::spec_zero()
        }),
    decreases n,
{
    if n > 0 {
        let m = (n - 1) as nat;
        let c = coeff_of(coeffs, m as int);
        lemma_weighted_sum_at_unit_point(coeffs, index, m);
        if m == index {
            F::law_mul_one(c);
            field::lemma_zero_add(c);
        } else {
            field::lemma_mul_zero(c);
            F::law_add_zero(weighted_sum(coeffs, m, unit_point::<F>(index)));
        }
    }
}

/// The value at a unit point is the constant plus the coefficient of that variable.
pub proof fn lemma_at_unit_point<F: Field>(f: Affine<F>, index: nat)
    ensures
        f.at(unit_point::<F>(index)) == f.constant + f.coeff(index as int),
{
    lemma_weighted_sum_at_unit_point(f.coeffs, index, f.coeffs.len());
}

proof fn lemma_weighted_sum_at_origin<F: Field>(coeffs: Seq<F>, n: nat)
    ensures
        weighted_sum(coeffs, n, |i: nat| F::spec_zero()) == F::spec_zero(),
    decreases n,
{
    if n > 0 {
        lemma_weighted_sum_at_origin(coeffs, (n - 1) as nat);
        field::lemma_mul_zero(coeff_of(coeffs, n - 1));
        F::law_add_zero(F::spec_zero());
    }
}

/// The value at the origin is the constant.
pub proof fn lemma_at_origin<F: Field>(f: Affine<F>)
    ensures
        f.at(|i: nat| F::spec_zero()) == f.constant,
{
    lemma_weighted_sum_at_origin(f.coeffs, f.coeffs.len());
    F::law_add_zero(f.constant);
}

/// An affine function is determined by its values: two that agree everywhere have the same
/// constant, and the same coefficient for every variable.
pub proof fn law_values_determine_affine<F: Field>(a: Affine<F>, b: Affine<F>)
    requires
        forall|point: spec_fn(nat) -> F| #[trigger] a.at(point) == b.at(point),
    ensures
        a.constant == b.constant,
        forall|i: int| a.coeff(i) == b.coeff(i),
{
    let origin = |i: nat| F::spec_zero();
    assert(a.at(origin) == b.at(origin));
    lemma_at_origin(a);
    lemma_at_origin(b);
    assert forall|i: int| a.coeff(i) == b.coeff(i) by {
        if 0 <= i {
            let point = unit_point::<F>(i as nat);
            assert(a.at(point) == b.at(point));
            lemma_at_unit_point(a, i as nat);
            lemma_at_unit_point(b, i as nat);
            field::lemma_add_cancels(a.constant, a.coeff(i), b.coeff(i));
        }
    }
}

} // verus!

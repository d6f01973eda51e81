//! Dual numbers and linear normal forms.
use vstd::prelude::*;
use vstd::std_specs::cmp::PartialEqSpecImpl;
use vstd::std_specs::convert::FromSpecImpl;
use vstd::std_specs::ops::{AddSpecImpl, MulSpecImpl};

use crate::affine::Affine;
use crate::error::Error;
use crate::field;
use crate::field::Field;

verus! {

/// A tiny "dual" number carrying
///  - `real`: the function value
///  - `derivs`: the length-n vector of partial derivatives
#[derive(Debug)]
pub struct Dual<F: Field> {
    pub real: F,
    pub derivs: Vec<F>,
}

/// A normal form for a linear expression.
#[derive(Debug)]
pub struct LinearNormalForm<F: Field> {
    /// The constant offset of the expression.
    pub constant: F,
    /// A vector mapping variable indices to their coefficients.
    pub var_coeffs: Vec<F>,
}

impl<F: Field> View for Dual<F> {
    type V = Affine<F>;

    open spec fn view(&self) -> Affine<F> {
        Affine { constant: self.real, coeffs: self.derivs@ }
    }
}

impl<F: Field> View for LinearNormalForm<F> {
    type V = Affine<F>;

    open spec fn view(&self) -> Affine<F> {
        Affine { constant: self.constant, coeffs: self.var_coeffs@ }
    }
}

/// A copy of `v`.
fn copied<F: Field>(v: &Vec<F>) -> (r: Vec<F>)
    ensures
        r@ == v@,
{
    let mut r: Vec<F> = Vec::new();
    while r.len() < v.len()
        invariant
            r.len() <= v.len(),
            r@ == v@.take(r.len() as int),
        decreases v.len() - r.len(),
    {
        r.push(v[r.len()]);
    }
    r
}

/// Every element of `v`, multiplied by `factor` from the left.
fn scaled<F: Field>(factor: F, v: &Vec<F>) -> (r: Vec<F>)
    ensures
        r@ == v@.map_values(|d: F| factor * d),
{
    let mut r: Vec<F> = Vec::new();
    while r.len() < v.len()
        invariant
            r.len() <= v.len(),
            r@ == v@.take(r.len() as int).map_values(|d: F| factor * d),
        decreases v.len() - r.len(),
    {
        r.push(factor.mul(v[r.len()]));
    }
    assert(v@.take(r.len() as int) =~= v@);
    r
}

/// The coefficients of the product of two affine functions, where one of them is constant.
fn product_coeffs<F: Field>(
    left_constant: F,
    left: &Vec<F>,
    right_constant: F,
    right: &Vec<F>,
) -> (r: Option<Vec<F>>)
    ensures
        ({
            let a = Affine { constant: left_constant, coeffs: left@ };
            let b = Affine { constant: right_constant, coeffs: right@ };
            match a.times(b) {
                Some(product) => r matches Some(coeffs) && coeffs@ == product.coeffs,
                None => r is None,
            }
        }),
{
    let left_const: bool = field::all_zero(left);
    let right_const: bool = field::all_zero(right);
    match (left_const, right_const) {
        (true, true) => Some(field::zeros(left.len())),
        (true, false) => Some(scaled(left_constant, right)),
        (false, true) => {
            let r: Vec<F> = scaled(right_constant, left);
            proof {
                assert forall|i: int| 0 <= i < left@.len() implies #[trigger] r@[i] == left@[i]
                    * right_constant by {
                    F::law_mul_commutes(left@[i], right_constant);
                }
                assert(r@ =~= left@.map_values(|d: F| d * right_constant));
            }
            Some(r)
        },
        (false, false) => None,
    }
}

impl<F: Field> Clone for Dual<F> {
    fn clone(&self) -> (r: Self)
        ensures
            r@ == self@,
    {
        Dual { real: self.real, derivs: copied(&self.derivs) }
    }
}

impl<F: Field> Clone for LinearNormalForm<F> {
    fn clone(&self) -> (r: Self)
        ensures
            r@ == self@,
    {
        LinearNormalForm { constant: self.constant, var_coeffs: copied(&self.var_coeffs) }
    }
}

impl<F: Field> PartialEq for LinearNormalForm<F> {
    fn eq(&self, other: &Self) -> (r: bool) {
        if !self.constant.equals(other.constant) || self.var_coeffs.len() != other.var_coeffs.len() {
            return false;
        }
        let mut k: usize = 0;
        while k < self.var_coeffs.len()
            invariant
                k <= self.var_coeffs.len(),
                self.var_coeffs.len() == other.var_coeffs.len(),
                forall|i: int| 0 <= i < k ==> self.var_coeffs@[i] == other.var_coeffs@[i],
            decreases self.var_coeffs.len() - k,
        {
            if !self.var_coeffs[k].equals(other.var_coeffs[k]) {
                assert(self@.coeffs[k as int] != other@.coeffs[k as int]);
                return false;
            }
            k = k + 1;
        }
        assert(self@.coeffs =~= other@.coeffs);
        true
    }
}

impl<F: Field> PartialEqSpecImpl for LinearNormalForm<F> {
    open spec fn obeys_eq_spec() -> bool {
        true
    }

    open spec fn eq_spec(&self, other: &Self) -> bool {
        self@ == other@
    }
}

impl<F: Field> Eq for LinearNormalForm<F> {

}

impl<F: Field> Dual<F> {
    /// constant c => (real = c, derivs = 0)
    pub fn constant(c: F, n: usize) -> (r: Self)
        ensures
            r@ == Affine::flat(c, n as nat),
    {
        Dual { real: c, derivs: field::zeros(n) }
    }

    /// variable x_i => (real = 0, derivs = e_i)
    pub fn variable(i: usize, n: usize) -> (r: Self)
        requires
            i < n,
        ensures
            r@ == Affine::<F>::unit(i as int, n as nat),
    {
        let mut derivs: Vec<F> = field::zeros(n);
        derivs[i] = F::one();
        let r = Dual { real: F::zero(), derivs };
        assert(r@ =~= Affine::<F>::unit(i as int, n as nat));
        r
    }

    /// exponentiate by a non-negative integer,
    /// error if exp > 1 and there is any derivative
    pub fn pow_uint(self, exp: usize) -> (r: Result<Self, Error>)
        ensures
            match self@.raised(exp as nat) {
                Some(power) => r matches Ok(d) && d@ == power,
                None => r == Err::<Self, Error>(Error::NonLinearExpression),
            },
    {
        match exp {
            0 => Ok(Self::constant(F::one(), self.derivs.len())),
            1 => Ok(self),
            _ => {
                // base must be constant to stay linear
                if self.derivs_constant() {
                    Ok(
                        Dual {
                            real: field::pow(self.real, exp as u64),
                            derivs: field::zeros(self.derivs.len()),
                        },
                    )
                } else {
                    Err(Error::NonLinearExpression)
                }
            },
        }
    }

    pub fn derivs_constant(&self) -> (r: bool)
        ensures
            r == self@.is_constant(),
    {
        field::all_zero(&self.derivs)
    }

    /// multiply, error if both sides carry a derivative
    pub fn checked_mul(self, rhs: Self) -> (r: Result<Self, Error>)
        ensures
            match self@.times(rhs@) {
                Some(product) => r matches Ok(d) && d@ == product,
                None => r == Err::<Self, Error>(Error::NonLinearExpression),
            },
    {
        match product_coeffs(self.real, &self.derivs, rhs.real, &rhs.derivs) {
            Some(derivs) => Ok(Dual { real: self.real.mul(rhs.real), derivs }),
            None => Err(Error::NonLinearExpression),
        }
    }
}

/// The sum carries the derivatives that both sides have.
impl<F: Field> std::ops::Add for Dual<F> {
    type Output = Self;

    fn add(self, other: Self) -> (r: Self)
        ensures
            r@ == self@.plus_common(other@),
    {
        let mut derivs: Vec<F> = Vec::new();
        while derivs.len() < self.derivs.len() && derivs.len() < other.derivs.len()
            invariant
                derivs.len() <= self.derivs.len(),
                derivs.len() <= other.derivs.len(),
                forall|i: int|
                    0 <= i < derivs.len() ==> #[trigger] derivs@[i] == self.derivs@[i]
                        + other.derivs@[i],
            decreases self.derivs.len() - derivs.len(),
        {
            derivs.push(self.derivs[derivs.len()].add(other.derivs[derivs.len()]));
        }
        let r = Dual { real: self.real.add(other.real), derivs };
        assert(r@ =~= self@.plus_common(other@));
        r
    }
}

impl<F: Field> AddSpecImpl for Dual<F> {
    open spec fn obeys_add_spec() -> bool {
        false
    }

    open spec fn add_req(self, rhs: Self) -> bool {
        true
    }

    open spec fn add_spec(self, rhs: Self) -> Self {
        arbitrary()
    }
}

impl<F: Field> From<F> for Dual<F> {
    fn from(value: F) -> (r: Self)
        ensures
            r@ == Affine::flat(value, 0),
    {
        let r = Dual { real: value, derivs: Vec::new() };
        assert(r@ =~= Affine::flat(value, 0));
        r
    }
}

impl<F: Field> FromSpecImpl<F> for Dual<F> {
    open spec fn obeys_from_spec() -> bool {
        false
    }

    open spec fn from_spec(value: F) -> Self {
        arbitrary()
    }
}

impl<F: Field> From<Dual<F>> for LinearNormalForm<F> {
    fn from(value: Dual<F>) -> Self {
        LinearNormalForm { constant: value.real, var_coeffs: value.derivs }
    }
}

impl<F: Field> FromSpecImpl<Dual<F>> for LinearNormalForm<F> {
    open spec fn obeys_from_spec() -> bool {
        true
    }

    open spec fn from_spec(value: Dual<F>) -> Self {
        LinearNormalForm { constant: value.real, var_coeffs: value.derivs }
    }
}

impl<F: Field> Default for LinearNormalForm<F> {
    fn default() -> (r: Self)
        ensures
            r@ == Affine::<F>::flat(F::spec_zero(), 0),
    {
        Self::new(F::zero())
    }
}

impl<F: Field> LinearNormalForm<F> {
    pub fn new(value: F) -> (r: Self)
        ensures
            r@ == Affine::flat(value, 0),
    {
        let r = LinearNormalForm { constant: value, var_coeffs: Vec::new() };
        assert(r@ =~= Affine::flat(value, 0));
        r
    }

    pub fn constant(constant: F, n: usize) -> (r: Self)
        ensures
            r@ == Affine::flat(constant, n as nat),
    {
        LinearNormalForm { constant, var_coeffs: field::zeros(n) }
    }

    pub fn coeffs_constant(&self) -> (r: bool)
        ensures
            r == self@.is_constant(),
    {
        field::all_zero(&self.var_coeffs)
    }

    pub fn pow(self, exp: usize) -> (r: Result<Self, Error>)
        ensures
            match self@.raised(exp as nat) {
                Some(power) => r matches Ok(form) && form@ == power,
                None => r == Err::<Self, Error>(Error::NonLinearExpression),
            },
    {
        match exp {
            0 => Ok(Self::constant(F::one(), self.var_coeffs.len())),
            1 => Ok(self),
            _ => {
                // base must be constant to stay linear
                if self.coeffs_constant() {
                    Ok(
                        LinearNormalForm {
                            constant: field::pow(self.constant, exp as u64),
                            var_coeffs: field::zeros(self.var_coeffs.len()),
                        },
                    )
                } else {
                    Err(Error::NonLinearExpression)
                }
            },
        }
    }
}

/// The sum has the variables of both sides; a coefficient that one side lacks is zero there.
impl<F: Field> std::ops::Add for LinearNormalForm<F> {
    type Output = Self;

    fn add(self, other: Self) -> (r: Self)
        ensures
            r@ == self@.plus(other@),
    {
        let constant: F = self.constant.add(other.constant);
        let mut var_coeffs: Vec<F> = Vec::new();
        while var_coeffs.len() < self.var_coeffs.len() || var_coeffs.len() < other.var_coeffs.len()
            invariant
                var_coeffs.len() <= crate::expr::max(self@.coeffs.len(), other@.coeffs.len()),
                forall|i: int|
                    0 <= i < var_coeffs.len() ==> #[trigger] var_coeffs@[i] == self@.coeff(i)
                        + other@.coeff(i),
            decreases crate::expr::max(self@.coeffs.len(), other@.coeffs.len()) - var_coeffs.len(),
        {
            let k: usize = var_coeffs.len();
            let left: F = if k < self.var_coeffs.len() {
                self.var_coeffs[k]
            } else {
                F::zero()
            };
            let right: F = if k < other.var_coeffs.len() {
                other.var_coeffs[k]
            } else {
                F::zero()
            };
            var_coeffs.push(left.add(right));
        }
        let r = LinearNormalForm { constant, var_coeffs };
        assert(r@ =~= self@.plus(other@));
        r
    }
}

impl<F: Field> AddSpecImpl for LinearNormalForm<F> {
    open spec fn obeys_add_spec() -> bool {
        false
    }

    open spec fn add_req(self, rhs: Self) -> bool {
        true
    }

    open spec fn add_spec(self, rhs: Self) -> Self {
        arbitrary()
    }
}

/// The product is linear only where one side is constant.
impl<F: Field> std::ops::Mul for LinearNormalForm<F> {
    type Output = Result<Self, Error>;

    fn mul(self, other: Self) -> (r: Result<Self, Error>)
        ensures
            match self@.times(other@) {
                Some(product) => r matches Ok(form) && form@ == product,
                None => r == Err::<Self, Error>(Error::NonLinearExpression),
            },
    {
        match product_coeffs(self.constant, &self.var_coeffs, other.constant, &other.var_coeffs) {
            Some(var_coeffs) => Ok(
                LinearNormalForm { constant: self.constant.mul(other.constant), var_coeffs },
            ),
            None => Err(Error::NonLinearExpression),
        }
    }
}

impl<F: Field> MulSpecImpl for LinearNormalForm<F> {
    open spec fn obeys_mul_spec() -> bool {
        false
    }

    open spec fn mul_req(self, rhs: Self) -> bool {
        true
    }

    open spec fn mul_spec(self, rhs: Self) -> Result<Self, Error> {
        arbitrary()
    }
}

} // verus!

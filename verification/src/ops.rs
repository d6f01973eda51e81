//! Copies, comparison and operators of expressions.
use vstd::prelude::*;
use vstd::std_specs::cmp::PartialEqSpecImpl;
use vstd::std_specs::iter::IteratorSpec;
use vstd::std_specs::ops::{AddSpecImpl, MulSpecImpl, SubSpecImpl};

use crate::expr::ArithExpr;
use crate::field::Field;

verus! {

impl<F: Field> Clone for ArithExpr<F> {
    fn clone(&self) -> (r: Self)
        ensures
            r == *self,
        decreases self,
    {
        match self {
            ArithExpr::Const(value) => ArithExpr::Const(*value),
            ArithExpr::Var(index) => ArithExpr::Var(*index),
            ArithExpr::Add(left, right) => ArithExpr::Add(
                Box::new((**left).clone()),
                Box::new((**right).clone()),
            ),
            ArithExpr::Mul(left, right) => ArithExpr::Mul(
                Box::new((**left).clone()),
                Box::new((**right).clone()),
            ),
            ArithExpr::Pow(base, exp) => ArithExpr::Pow(Box::new((**base).clone()), *exp),
        }
    }
}

/// Two expressions are equal where they are the same tree.
impl<F: Field> PartialEq for ArithExpr<F> {
    fn eq(&self, other: &Self) -> (r: bool)
        decreases self,
    {
        match (self, other) {
            (ArithExpr::Const(a), ArithExpr::Const(b)) => a.equals(*b),
            (ArithExpr::Var(a), ArithExpr::Var(b)) => *a == *b,
            (ArithExpr::Add(a, b), ArithExpr::Add(c, d)) => **a == **c && **b == **d,
            (ArithExpr::Mul(a, b), ArithExpr::Mul(c, d)) => **a == **c && **b == **d,
            (ArithExpr::Pow(a, b), ArithExpr::Pow(c, d)) => **a == **c && *b == *d,
            _ => false,
        }
    }
}

impl<F: Field> PartialEqSpecImpl for ArithExpr<F> {
    open spec fn obeys_eq_spec() -> bool {
        true
    }

    open spec fn eq_spec(&self, other: &Self) -> bool {
        *self == *other
    }
}

impl<F: Field> Eq for ArithExpr<F> {

}

impl<F: Field> Default for ArithExpr<F> {
    fn default() -> (r: Self)
        ensures
            r == ArithExpr::Const(F::spec_zero()),
    {
        Self::zero()
    }
}

impl<F: Field> std::ops::Add for ArithExpr<F> {
    type Output = Self;

    fn add(self, rhs: Self) -> Self {
        ArithExpr::Add(Box::new(self), Box::new(rhs))
    }
}

impl<F: Field> AddSpecImpl for ArithExpr<F> {
    open spec fn obeys_add_spec() -> bool {
        true
    }

    open spec fn add_req(self, rhs: Self) -> bool {
        true
    }

    open spec fn add_spec(self, rhs: Self) -> Self {
        ArithExpr::Add(Box::new(self), Box::new(rhs))
    }
}

impl<F: Field> std::ops::AddAssign for ArithExpr<F> {
    fn add_assign(&mut self, rhs: Self)
        ensures
            *final(self) == ArithExpr::Add(Box::new(*old(self)), Box::new(rhs)),
    {
        let mut own: Self = Self::default();
        std::mem::swap(&mut own, self);
        *self = own + rhs;
    }
}

/// Fields of characteristic two subtract as they add.
impl<F: Field> std::ops::Sub for ArithExpr<F> {
    type Output = Self;

    fn sub(self, rhs: Self) -> Self {
        ArithExpr::Add(Box::new(self), Box::new(rhs))
    }
}

impl<F: Field> SubSpecImpl for ArithExpr<F> {
    open spec fn obeys_sub_spec() -> bool {
        true
    }

    open spec fn sub_req(self, rhs: Self) -> bool {
        true
    }

    open spec fn sub_spec(self, rhs: Self) -> Self {
        ArithExpr::Add(Box::new(self), Box::new(rhs))
    }
}

impl<F: Field> std::ops::SubAssign for ArithExpr<F> {
    fn sub_assign(&mut self, rhs: Self)
        ensures
            *final(self) == ArithExpr::Add(Box::new(*old(self)), Box::new(rhs)),
    {
        let mut own: Self = Self::default();
        std::mem::swap(&mut own, self);
        *self = own - rhs;
    }
}

impl<F: Field> std::ops::Mul for ArithExpr<F> {
    type Output = Self;

    fn mul(self, rhs: Self) -> Self {
        ArithExpr::Mul(Box::new(self), Box::new(rhs))
    }
}

impl<F: Field> MulSpecImpl for ArithExpr<F> {
    open spec fn obeys_mul_spec() -> bool {
        true
    }

    open spec fn mul_req(self, rhs: Self) -> bool {
        true
    }

    open spec fn mul_spec(self, rhs: Self) -> Self {
        ArithExpr::Mul(Box::new(self), Box::new(rhs))
    }
}

impl<F: Field> std::ops::MulAssign for ArithExpr<F> {
    fn mul_assign(&mut self, rhs: Self)
        ensures
            *final(self) == ArithExpr::Mul(Box::new(*old(self)), Box::new(rhs)),
    {
        let mut own: Self = Self::default();
        std::mem::swap(&mut own, self);
        *self = own * rhs;
    }
}

impl<F: Field> ArithExpr<F> {
    /// The sum of the items, from the first to the last; zero where there are none.
    pub fn sum<I: Iterator<Item = Self>>(iter: I) -> (r: Self)
        requires
            iter.obeys_prophetic_iter_laws(),
            iter.decrease() is Some,
        ensures
            r == Self::sum_of(iter.remaining()),
    {
        let mut rest: I = iter;
        let first: Option<Self> = rest.next();
        match first {
            None => Self::zero(),
            Some(item) => {
                let mut acc: Self = item;
                let ghost mut count: int = 1;
                assert(iter.remaining().take(1) =~= seq![item]);
                assert(iter.remaining().skip(1) =~= rest.remaining());
                loop
                    invariant
                        rest.obeys_prophetic_iter_laws(),
                        rest.decrease() is Some,
                        1 <= count <= iter.remaining().len(),
                        acc == Self::sum_of(iter.remaining().take(count)),
                        rest.remaining() == iter.remaining().skip(count),
                    ensures
                        acc == Self::sum_of(iter.remaining()),
                    decreases rest.decrease()->0,
                {
                    let next: Option<Self> = rest.next();
                    match next {
                        None => {
                            assert(iter.remaining().take(count) =~= iter.remaining());
                            break;
                        },
                        Some(item) => {
                            proof {
                                let longer = iter.remaining().take(count + 1);
                                assert(longer.drop_last() =~= iter.remaining().take(count));
                                assert(longer.last() == item);
                                count = count + 1;
                                assert(iter.remaining().skip(count) =~= rest.remaining());
                            }
                            acc = acc + item;
                        },
                    }
                }
                acc
            },
        }
    }

    /// The product of the items, from the first to the last; one where there are none.
    pub fn product<I: Iterator<Item = Self>>(iter: I) -> (r: Self)
        requires
            iter.obeys_prophetic_iter_laws(),
            iter.decrease() is Some,
        ensures
            r == Self::product_of(iter.remaining()),
    {
        let mut rest: I = iter;
        let first: Option<Self> = rest.next();
        match first {
            None => Self::one(),
            Some(item) => {
                let mut acc: Self = item;
                let ghost mut count: int = 1;
                assert(iter.remaining().take(1) =~= seq![item]);
                assert(iter.remaining().skip(1) =~= rest.remaining());
                loop
                    invariant
                        rest.obeys_prophetic_iter_laws(),
                        rest.decrease() is Some,
                        1 <= count <= iter.remaining().len(),
                        acc == Self::product_of(iter.remaining().take(count)),
                        rest.remaining() == iter.remaining().skip(count),
                    ensures
                        acc == Self::product_of(iter.remaining()),
                    decreases rest.decrease()->0,
                {
                    let next: Option<Self> = rest.next();
                    match next {
                        None => {
                            assert(iter.remaining().take(count) =~= iter.remaining());
                            break;
                        },
                        Some(item) => {
                            proof {
                                let longer = iter.remaining().take(count + 1);
                                assert(longer.drop_last() =~= iter.remaining().take(count));
                                assert(longer.last() == item);
                                count = count + 1;
                                assert(iter.remaining().skip(count) =~= rest.remaining());
                            }
                            acc = acc * item;
                        },
                    }
                }
                acc
            },
        }
    }
}

} // verus!

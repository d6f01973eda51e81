//! Arithmetic expressions, what they mean, and the operations that keep their shape.
use vstd::prelude::*;

use crate::error::Error;
use crate::field;
use crate::field::Field;
use crate::tower::TowerField;

verus! {

/// Arithmetic expressions that can be evaluated symbolically.
///
/// Arithmetic expressions are trees, where the leaves are either constants or variables, and the
/// non-leaf nodes are arithmetic operations, such as addition, multiplication, etc. They are
/// specific representations of multivariate polynomials.
#[derive(Debug)]
pub enum ArithExpr<F: Field> {
    Const(F),
    Var(usize),
    Add(Box<ArithExpr<F>>, Box<ArithExpr<F>>),
    Mul(Box<ArithExpr<F>>, Box<ArithExpr<F>>),
    Pow(Box<ArithExpr<F>>, u64),
}

/// The larger of two numbers.
pub open spec fn max(a: nat, b: nat) -> nat {
    if a >= b {
        a
    } else {
        b
    }
}

impl<F: Field> ArithExpr<F> {
    /// The value of the polynomial that the expression represents, where variable `i` has the
    /// value `point(i)`.
    pub open spec fn eval(self, point: spec_fn(nat) -> F) -> F
        decreases self,
    {
        match self {
            ArithExpr::Const(value) => value,
            ArithExpr::Var(index) => point(index as nat),
            ArithExpr::Add(left, right) => left.eval(point) + right.eval(point),
            ArithExpr::Mul(left, right) => left.eval(point) * right.eval(point),
            ArithExpr::Pow(base, exp) => field::power(base.eval(point), exp as nat),
        }
    }

    /// Whether variable `i` occurs in the expression.
    pub open spec fn uses_var(self, i: int) -> bool
        decreases self,
    {
        match self {
            ArithExpr::Const(_) => false,
            ArithExpr::Var(index) => index == i,
            ArithExpr::Add(left, right) => left.uses_var(i) || right.uses_var(i),
            ArithExpr::Mul(left, right) => left.uses_var(i) || right.uses_var(i),
            ArithExpr::Pow(base, _) => base.uses_var(i),
        }
    }

    /// The least number that is above the index of every variable of the expression.
    pub open spec fn var_bound(self) -> nat
        decreases self,
    {
        match self {
            ArithExpr::Const(_) => 0,
            ArithExpr::Var(index) => index as nat + 1,
            ArithExpr::Add(left, right) => max(left.var_bound(), right.var_bound()),
            ArithExpr::Mul(left, right) => max(left.var_bound(), right.var_bound()),
            ArithExpr::Pow(base, _) => base.var_bound(),
        }
    }

    /// The total degree, where no sum cancels and no constant counts as zero.
    pub open spec fn total_degree(self) -> nat
        decreases self,
    {
        match self {
            ArithExpr::Const(_) => 0,
            ArithExpr::Var(_) => 1,
            ArithExpr::Add(left, right) => max(left.total_degree(), right.total_degree()),
            ArithExpr::Mul(left, right) => left.total_degree() + right.total_degree(),
            ArithExpr::Pow(base, exp) => base.total_degree() * (exp as nat),
        }
    }

    /// Whether the degree of every part of the expression, and every exponent, is a `usize`.
    pub open spec fn degree_fits(self) -> bool
        decreases self,
    {
        &&& self.total_degree() <= usize::MAX
        &&& match self {
            ArithExpr::Const(_) => true,
            ArithExpr::Var(_) => true,
            ArithExpr::Add(left, right) => left.degree_fits() && right.degree_fits(),
            ArithExpr::Mul(left, right) => left.degree_fits() && right.degree_fits(),
            ArithExpr::Pow(base, exp) => base.degree_fits() && exp <= usize::MAX,
        }
    }

    /// The expression with variable `indices[i]` in the place of variable `i`.
    pub open spec fn remapped(self, indices: Seq<usize>) -> Self
        decreases self,
    {
        match self {
            ArithExpr::Const(_) => self,
            ArithExpr::Var(index) => ArithExpr::Var(indices[index as int]),
            ArithExpr::Add(left, right) => ArithExpr::Add(
                Box::new(left.remapped(indices)),
                Box::new(right.remapped(indices)),
            ),
            ArithExpr::Mul(left, right) => ArithExpr::Mul(
                Box::new(left.remapped(indices)),
                Box::new(right.remapped(indices)),
            ),
            ArithExpr::Pow(base, exp) => ArithExpr::Pow(Box::new(base.remapped(indices)), exp),
        }
    }

    /// The leftmost variable whose index is not below `bound`.
    pub open spec fn first_var_from(self, bound: nat) -> Option<usize>
        decreases self,
    {
        match self {
            ArithExpr::Const(_) => None,
            ArithExpr::Var(index) => if index < bound {
                None
            } else {
                Some(index)
            },
            ArithExpr::Add(left, right) => match left.first_var_from(bound) {
                Some(index) => Some(index),
                None => right.first_var_from(bound),
            },
            ArithExpr::Mul(left, right) => match left.first_var_from(bound) {
                Some(index) => Some(index),
                None => right.first_var_from(bound),
            },
            ArithExpr::Pow(base, _) => base.first_var_from(bound),
        }
    }

    /// The expression with the constant `value` in the place of variable `var`.
    pub open spec fn substituted(self, var: usize, value: F) -> Self
        decreases self,
    {
        match self {
            ArithExpr::Const(_) => self,
            ArithExpr::Var(index) => if index == var {
                ArithExpr::Const(value)
            } else {
                self
            },
            ArithExpr::Add(left, right) => ArithExpr::Add(
                Box::new(left.substituted(var, value)),
                Box::new(right.substituted(var, value)),
            ),
            ArithExpr::Mul(left, right) => ArithExpr::Mul(
                Box::new(left.substituted(var, value)),
                Box::new(right.substituted(var, value)),
            ),
            ArithExpr::Pow(base, exp) => ArithExpr::Pow(
                Box::new(base.substituted(var, value)),
                exp,
            ),
        }
    }

    /// `items[0] + items[1] + ...`, or zero where there are no items.
    pub open spec fn sum_of(items: Seq<Self>) -> Self
        decreases items.len(),
    {
        if items.len() == 0 {
            ArithExpr::Const(F::spec_zero())
        } else if items.len() == 1 {
            items[0]
        } else {
            ArithExpr::Add(Box::new(Self::sum_of(items.drop_last())), Box::new(items.last()))
        }
    }

    /// `items[0] * items[1] * ...`, or one where there are no items.
    pub open spec fn product_of(items: Seq<Self>) -> Self
        decreases items.len(),
    {
        if items.len() == 0 {
            ArithExpr::Const(F::spec_one())
        } else if items.len() == 1 {
            items[0]
        } else {
            ArithExpr::Mul(Box::new(Self::product_of(items.drop_last())), Box::new(items.last()))
        }
    }

    /// The number of variables the expression contains.
    pub fn n_vars(&self) -> (r: usize)
        requires
            self.var_bound() <= usize::MAX,
        ensures
            r == self.var_bound(),
        decreases self,
    {
        match self {
            ArithExpr::Const(_) => 0,
            ArithExpr::Var(index) => *index + 1,
            ArithExpr::Add(left, right) | ArithExpr::Mul(left, right) => {
                let l: usize = left.n_vars();
                let r: usize = right.n_vars();
                if l >= r {
                    l
                } else {
                    r
                }
            },
            ArithExpr::Pow(base, _) => base.n_vars(),
        }
    }

    /// The total degree of the polynomial the expression represents.
    pub fn degree(&self) -> (r: usize)
        requires
            self.degree_fits(),
        ensures
            r == self.total_degree(),
        decreases self,
    {
        match self {
            ArithExpr::Const(_) => 0,
            ArithExpr::Var(_) => 1,
            ArithExpr::Add(left, right) => {
                let l: usize = left.degree();
                let r: usize = right.degree();
                if l >= r {
                    l
                } else {
                    r
                }
            },
            ArithExpr::Mul(left, right) => left.degree() + right.degree(),
            ArithExpr::Pow(base, exp) => base.degree() * (*exp as usize),
        }
    }

    pub fn pow(self, exp: u64) -> (r: Self)
        ensures
            r == ArithExpr::Pow(Box::new(self), exp),
    {
        ArithExpr::Pow(Box::new(self), exp)
    }

    pub fn zero() -> (r: Self)
        ensures
            r == ArithExpr::Const(F::spec_zero()),
    {
        ArithExpr::Const(F::zero())
    }

    pub fn one() -> (r: Self)
        ensures
            r == ArithExpr::Const(F::spec_one()),
    {
        ArithExpr::Const(F::one())
    }

    /// Creates a new expression with the variable indices remapped.
    ///
    /// This recursively replaces the variable sub-expressions with an index `i` with the variable
    /// `indices[i]`.
    ///
    /// ## Throws
    ///
    /// * [`Error::IncorrectArgumentLength`] if indices has length less than the current number of
    ///   variables
    pub fn remap_vars(self, indices: &[usize]) -> (r: Result<Self, Error>)
        ensures
            r is Ok <==> self.var_bound() <= indices@.len(),
            match self.first_var_from(indices@.len()) {
                None => r == Ok::<Self, Error>(self.remapped(indices@)),
                Some(index) => r matches Err(Error::IncorrectArgumentLength { arg, expected })
                    && arg@ == "subset"@ && expected == index,
            },
        decreases self,
    {
        match self {
            ArithExpr::Const(value) => Ok(ArithExpr::Const(value)),
            ArithExpr::Var(index) => if index < indices.len() {
                Ok(ArithExpr::Var(indices[index]))
            } else {
                Err(Error::IncorrectArgumentLength { arg: "subset".to_owned(), expected: index })
            },
            ArithExpr::Add(left, right) => match left.remap_vars(indices) {
                Err(error) => Err(error),
                Ok(new_left) => match right.remap_vars(indices) {
                    Err(error) => Err(error),
                    Ok(new_right) => Ok(ArithExpr::Add(Box::new(new_left), Box::new(new_right))),
                },
            },
            ArithExpr::Mul(left, right) => match left.remap_vars(indices) {
                Err(error) => Err(error),
                Ok(new_left) => match right.remap_vars(indices) {
                    Err(error) => Err(error),
                    Ok(new_right) => Ok(ArithExpr::Mul(Box::new(new_left), Box::new(new_right))),
                },
            },
            ArithExpr::Pow(base, exp) => match base.remap_vars(indices) {
                Err(error) => Err(error),
                Ok(new_base) => Ok(ArithExpr::Pow(Box::new(new_base), exp)),
            },
        }
    }

    /// Substitute variable with index `var` with a constant `value`
    pub fn const_subst(self, var: usize, value: F) -> (r: Self)
        ensures
            r == self.substituted(var, value),
        decreases self,
    {
        match self {
            ArithExpr::Const(own) => ArithExpr::Const(own),
            ArithExpr::Var(index) => if index == var {
                ArithExpr::Const(value)
            } else {
                ArithExpr::Var(index)
            },
            ArithExpr::Add(left, right) => {
                let new_left = left.const_subst(var, value);
                let new_right = right.const_subst(var, value);
                ArithExpr::Add(Box::new(new_left), Box::new(new_right))
            },
            ArithExpr::Mul(left, right) => {
                let new_left = left.const_subst(var, value);
                let new_right = right.const_subst(var, value);
                ArithExpr::Mul(Box::new(new_left), Box::new(new_right))
            },
            ArithExpr::Pow(base, exp) => {
                let new_base = base.const_subst(var, value);
                ArithExpr::Pow(Box::new(new_base), exp)
            },
        }
    }

    /// Whether expression is a composite node, and not a leaf.
    pub fn is_composite(&self) -> (r: bool)
        ensures
            r == !(self is Const || self is Var),
    {
        match self {
            ArithExpr::Const(_) | ArithExpr::Var(_) => false,
            ArithExpr::Add(_, _) | ArithExpr::Mul(_, _) | ArithExpr::Pow(_, _) => true,
        }
    }

    /// Returns `Some(F)` if the expression is a constant.
    pub fn constant(&self) -> (r: Option<F>)
        ensures
            r == (match *self {
                ArithExpr::Const(value) => Some(value),
                _ => None,
            }),
    {
        match self {
            ArithExpr::Const(value) => Some(*value),
            _ => None,
        }
    }

    /// Returns a vector of booleans indicating which variables are used in the expression.
    ///
    /// The vector is indexed by variable index, and the value at index `i` is `true` if and only
    /// if the variable is used in the expression.
    pub fn vars_usage(&self) -> (r: Vec<bool>)
        requires
            self.var_bound() <= usize::MAX,
        ensures
            r@ == Seq::new(self.var_bound(), |i: int| self.uses_var(i)),
    {
        let n: usize = self.n_vars();
        let mut usage: Vec<bool> = Vec::new();
        while usage.len() < n
            invariant
                usage.len() <= n,
                forall|i: int| 0 <= i < usage.len() ==> !usage@[i],
            decreases n - usage.len(),
        {
            usage.push(false);
        }
        self.mark_vars_usage(&mut usage);
        usage
    }

    fn mark_vars_usage(&self, usage: &mut Vec<bool>)
        requires
            self.var_bound() <= old(usage)@.len(),
        ensures
            final(usage)@ == Seq::new(
                old(usage)@.len(),
                |i: int| old(usage)@[i] || self.uses_var(i),
            ),
        decreases self,
    {
        match self {
            ArithExpr::Const(_) => {},
            ArithExpr::Var(index) => {
                usage[*index] = true;
            },
            ArithExpr::Add(left, right) | ArithExpr::Mul(left, right) => {
                left.mark_vars_usage(usage);
                right.mark_vars_usage(usage);
            },
            ArithExpr::Pow(base, _) => {
                base.mark_vars_usage(usage);
            },
        }
    }
}

impl<F: TowerField> ArithExpr<F> {
    /// The highest of the levels that the constants of the expression need.
    pub open spec fn level_bound(self) -> nat
        decreases self,
    {
        match self {
            ArithExpr::Const(value) => value.spec_min_tower_level(),
            ArithExpr::Var(_) => 0,
            ArithExpr::Add(left, right) => max(left.level_bound(), right.level_bound()),
            ArithExpr::Mul(left, right) => max(left.level_bound(), right.level_bound()),
            ArithExpr::Pow(base, _) => base.level_bound(),
        }
    }

    pub fn binary_tower_level(&self) -> (r: usize)
        requires
            F::spec_tower_level() <= usize::MAX,
        ensures
            r == self.level_bound(),
        decreases self,
    {
        match self {
            ArithExpr::Const(value) => value.min_tower_level(),
            ArithExpr::Var(_) => 0,
            ArithExpr::Add(left, right) | ArithExpr::Mul(left, right) => {
                let l: usize = left.binary_tower_level();
                let r: usize = right.binary_tower_level();
                if l >= r {
                    l
                } else {
                    r
                }
            },
            ArithExpr::Pow(base, _) => base.binary_tower_level(),
        }
    }
}

} // verus!

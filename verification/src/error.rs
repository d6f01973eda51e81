//! The errors of the operations on expressions.
use vstd::prelude::*;

verus! {

#[derive(Clone, Debug, PartialEq, Eq)]
pub enum Error {
    /// An argument has too few entries; `expected` is the first index that was missing.
    IncorrectArgumentLength { arg: String, expected: usize },
    /// A linear expression was asked for and the expression is not linear.
    NonLinearExpression,
}

} // verus!

//! Arithmetic expressions over a field: trees of constants, variables, sums, products and
//! powers, with the symbolic operations on them.

pub mod affine;
pub mod convert;
pub mod error;
pub mod evaluate;
pub mod evaluate_laws;
pub mod expr;
pub mod field;
pub mod laws;
pub mod leading;
pub mod linear;
pub mod ops;
pub mod optimize;
pub mod optimize_laws;
pub mod parts;
pub mod poly;
pub mod structure_laws;
pub mod subfield;
pub mod text;
pub mod text_laws;
pub mod tower;
pub mod tower_laws;

pub use crate::error::Error;
pub use crate::expr::ArithExpr;
pub use crate::field::Field;
pub use crate::linear::{Dual, LinearNormalForm};
pub use crate::subfield::NotInSubfield;
pub use crate::text::FieldText;
pub use crate::tower::{BinaryField128b, BinaryField1b, BinaryField8b, BinaryTower, TowerField};

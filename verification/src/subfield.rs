//! The fields of the binary tower inside one another, their operators, and how their elements are
//! written.
use vstd::prelude::*;
use vstd::std_specs::convert::{FromSpecImpl, TryFromSpecImpl};
use vstd::std_specs::ops::{AddSpecImpl, MulSpecImpl};

use crate::field::{Field, Operations};
use crate::tower::{
    BinaryField128b, BinaryField1b, BinaryField8b, BinaryTower, Extension, TowerField,
};

verus! {

/// The element lies outside the smaller field that it was to be converted to.
#[derive(Clone, Copy, Debug, PartialEq, Eq)]
pub struct NotInSubfield {}

impl<T: BinaryTower> Extension<T> {
    /// An element of the field below as an element of this one.
    pub open spec fn spec_embed(value: T) -> Self {
        Extension { lo: value, hi: T::spec_zero() }
    }

    /// The element of the field below that this one is, if it is one.
    pub open spec fn spec_project(self) -> Option<T> {
        if self.hi == T::spec_zero() {
            Some(self.lo)
        } else {
            None
        }
    }

    pub fn embed(value: T) -> (r: Self)
        ensures
            r == Self::spec_embed(value),
    {
        Extension { lo: value, hi: T::zero() }
    }

    pub fn project(self) -> (r: Option<T>)
        ensures
            r == self.spec_project(),
    {
        if self.hi.equals(T::zero()) {
            Some(self.lo)
        } else {
            None
        }
    }
}

impl BinaryField8b {
    /// The element whose coordinates are the bits of `value`.
    pub fn new(value: u8) -> (r: Self)
        ensures
            r == Self::spec_from_bits(value as u128),
    {
        Self::from_bits(value as u128)
    }
}

impl BinaryField128b {
    /// The element whose coordinates are the bits of `value`.
    pub fn new(value: u128) -> (r: Self)
        ensures
            r == Self::spec_from_bits(value),
    {
        Self::from_bits(value)
    }
}

impl From<BinaryField8b> for BinaryField128b {
    fn from(value: BinaryField8b) -> Self {
        Extension::embed(Extension::embed(Extension::embed(Extension::embed(value))))
    }
}

impl FromSpecImpl<BinaryField8b> for BinaryField128b {
    open spec fn obeys_from_spec() -> bool {
        true
    }

    open spec fn from_spec(value: BinaryField8b) -> Self {
        Extension::spec_embed(
            Extension::spec_embed(Extension::spec_embed(Extension::spec_embed(value))),
        )
    }
}

impl TryFrom<BinaryField128b> for BinaryField8b {
    type Error = NotInSubfield;

    fn try_from(value: BinaryField128b) -> Result<Self, NotInSubfield> {
        match value.project() {
            None => Err(NotInSubfield {  }),
            Some(v64) => match v64.project() {
                None => Err(NotInSubfield {  }),
                Some(v32) => match v32.project() {
                    None => Err(NotInSubfield {  }),
                    Some(v16) => match v16.project() {
                        None => Err(NotInSubfield {  }),
                        Some(v8) => Ok(v8),
                    },
                },
            },
        }
    }
}

impl TryFromSpecImpl<BinaryField128b> for BinaryField8b {
    open spec fn obeys_try_from_spec() -> bool {
        true
    }

    open spec fn try_from_spec(value: BinaryField128b) -> Result<Self, NotInSubfield> {
        if value.spec_min_tower_level() <= 3 {
            Ok(value.lo.lo.lo.lo)
        } else {
            Err(NotInSubfield {  })
        }
    }
}

impl TryFrom<BinaryField128b> for BinaryField1b {
    type Error = NotInSubfield;

    fn try_from(value: BinaryField128b) -> Result<Self, NotInSubfield> {
        let low: Result<BinaryField8b, NotInSubfield> = BinaryField8b::try_from(value);
        match low {
            Err(error) => Err(error),
            Ok(v8) => match v8.project() {
                None => Err(NotInSubfield {  }),
                Some(v4) => match v4.project() {
                    None => Err(NotInSubfield {  }),
                    Some(v2) => match v2.project() {
                        None => Err(NotInSubfield {  }),
                        Some(v1) => Ok(v1),
                    },
                },
            },
        }
    }
}

impl TryFromSpecImpl<BinaryField128b> for BinaryField1b {
    open spec fn obeys_try_from_spec() -> bool {
        true
    }

    open spec fn try_from_spec(value: BinaryField128b) -> Result<Self, NotInSubfield> {
        if value.spec_min_tower_level() == 0 {
            Ok(value.lo.lo.lo.lo.lo.lo.lo)
        } else {
            Err(NotInSubfield {  })
        }
    }
}

impl<T: BinaryTower> std::ops::Add for Extension<T> {
    type Output = Self;

    fn add(self, rhs: Self) -> Self {
        Field::add(self, rhs)
    }
}

impl<T: BinaryTower> AddSpecImpl for Extension<T> {
    open spec fn obeys_add_spec() -> bool {
        true
    }

    open spec fn add_req(self, rhs: Self) -> bool {
        true
    }

    open spec fn add_spec(self, rhs: Self) -> Self {
        self.spec_add(rhs)
    }
}

impl<T: BinaryTower> std::ops::Mul for Extension<T> {
    type Output = Self;

    fn mul(self, rhs: Self) -> Self {
        Field::mul(self, rhs)
    }
}

impl<T: BinaryTower> MulSpecImpl for Extension<T> {
    open spec fn obeys_mul_spec() -> bool {
        true
    }

    open spec fn mul_req(self, rhs: Self) -> bool {
        true
    }

    open spec fn mul_spec(self, rhs: Self) -> Self {
        self.spec_mul(rhs)
    }
}

} // verus!

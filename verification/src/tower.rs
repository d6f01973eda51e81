//! The binary tower: fields of characteristic two, each a quadratic extension of the one below.
use vstd::prelude::*;

use crate::field;
use crate::field::{Field, Operations};

verus! {

/// A field that stands on some level of a tower of fields, each of which holds the ones below it.
pub trait TowerField: Field {
    /// How many extensions this field stands above the lowest level.
    spec fn spec_tower_level() -> nat;

    /// The level of the smallest field of the tower that holds this element.
    spec fn spec_min_tower_level(self) -> nat;

    /// No element needs a field above its own.
    proof fn law_min_tower_level_is_bounded(self)
        ensures
            self.spec_min_tower_level() <= Self::spec_tower_level(),
    ;

    fn tower_level() -> (r: usize)
        requires
            Self::spec_tower_level() <= usize::MAX,
        ensures
            r == Self::spec_tower_level(),
    ;

    fn min_tower_level(self) -> (r: usize)
        requires
            Self::spec_tower_level() <= usize::MAX,
        ensures
            r == self.spec_min_tower_level(),
    ;
}

/// A field of the binary tower. Every level but the lowest adjoins one element to the level
/// below it, and is read from and written to machine words with the coordinate of that element in
/// the upper half of the bits.
pub trait BinaryTower: TowerField {
    /// The element that this level adjoins; one on the lowest level.
    spec fn spec_generator() -> Self;

    /// How many bits an element has.
    spec fn spec_width() -> nat;

    /// The element whose coordinates are the lowest bits of a word.
    spec fn spec_from_bits(bits: u128) -> Self;

    /// The coordinates of an element as the lowest bits of a word, with zeros above them.
    spec fn spec_to_bits(self) -> u128;

    proof fn law_binary()
        ensures
            Self::spec_characteristic() == 2,
    ;

    /// The number of bits doubles from level to level.
    proof fn law_width()
        ensures
            Self::spec_width() == vstd::arithmetic::power2::pow2(Self::spec_tower_level()),
            Self::spec_width() >= 1,
    ;

    /// Only the lowest bits of a word are read.
    proof fn law_from_bits_reads_low_bits(a: u128, b: u128)
        requires
            Self::spec_width() <= 128,
            a & low_bits(Self::spec_width() as u128) == b & low_bits(Self::spec_width() as u128),
        ensures
            Self::spec_from_bits(a) == Self::spec_from_bits(b),
    ;

    /// The bits of a sum are the exclusive or of the bits.
    proof fn law_from_bits_adds(a: u128, b: u128)
        requires
            Self::spec_width() <= 128,
        ensures
            Self::spec_from_bits(a ^ b) == Self::spec_from_bits(a) + Self::spec_from_bits(b),
    ;

    /// What was written can be read back.
    proof fn law_bits_give_element(self)
        requires
            Self::spec_width() <= 128,
        ensures
            Self::spec_from_bits(self.spec_to_bits()) == self,
    ;

    /// What was read is written again, without the bits that no element has.
    proof fn law_element_gives_bits(bits: u128)
        requires
            Self::spec_width() <= 128,
        ensures
            Self::spec_from_bits(bits).spec_to_bits() == bits & low_bits(
                Self::spec_width() as u128,
            ),
    ;

    fn generator() -> (r: Self)
        ensures
            r == Self::spec_generator(),
    ;

    fn width() -> (r: u128)
        requires
            Self::spec_width() <= 128,
        ensures
            r == Self::spec_width(),
    ;

    fn from_bits(bits: u128) -> (r: Self)
        requires
            Self::spec_width() <= 128,
        ensures
            r == Self::spec_from_bits(bits),
    ;

    fn to_bits(self) -> (r: u128)
        requires
            Self::spec_width() <= 128,
        ensures
            r == self.spec_to_bits(),
    ;
}

/// The word whose lowest `count` bits are ones, and whose other bits are zeros.
pub open spec fn low_bits(count: u128) -> u128 {
    !(0xffff_ffff_ffff_ffff_ffff_ffff_ffff_ffffu128 << count)
}

/// The field of two elements.
#[derive(Clone, Copy, Debug, PartialEq, Eq)]
pub struct BinaryField1b {
    pub bit: bool,
}

/// The quadratic extension of a field of the tower: the elements `lo + hi * x`, where
/// `x * x == x * g + 1` for the element `g` that the field below adjoined.
#[derive(Clone, Copy, Debug, PartialEq, Eq)]
pub struct Extension<T> {
    pub lo: T,
    pub hi: T,
}

pub type BinaryField2b = Extension<BinaryField1b>;

pub type BinaryField4b = Extension<BinaryField2b>;

pub type BinaryField8b = Extension<BinaryField4b>;

pub type BinaryField16b = Extension<BinaryField8b>;

pub type BinaryField32b = Extension<BinaryField16b>;

pub type BinaryField64b = Extension<BinaryField32b>;

pub type BinaryField128b = Extension<BinaryField64b>;

impl Operations for BinaryField1b {
    open spec fn spec_zero() -> Self {
        BinaryField1b { bit: false }
    }

    open spec fn spec_one() -> Self {
        BinaryField1b { bit: true }
    }

    open spec fn spec_add(self, rhs: Self) -> Self {
        BinaryField1b { bit: self.bit != rhs.bit }
    }

    open spec fn spec_mul(self, rhs: Self) -> Self {
        BinaryField1b { bit: self.bit && rhs.bit }
    }

    open spec fn spec_neg(self) -> Self {
        self
    }
}

impl Field for BinaryField1b {
    open spec fn spec_characteristic() -> nat {
        2
    }

    proof fn law_add_commutes(a: Self, b: Self) {
    }

    proof fn law_add_associates(a: Self, b: Self, c: Self) {
    }

    proof fn law_add_zero(a: Self) {
    }

    proof fn law_add_neg(a: Self) {
    }

    proof fn law_mul_commutes(a: Self, b: Self) {
    }

    proof fn law_mul_associates(a: Self, b: Self, c: Self) {
    }

    proof fn law_mul_one(a: Self) {
    }

    proof fn law_one_is_not_zero() {
    }

    proof fn law_mul_distributes(a: Self, b: Self, c: Self) {
    }

    proof fn law_characteristic() {
        reveal_with_fuel(field::repeated, 3);
    }

    fn zero() -> Self {
        BinaryField1b { bit: false }
    }

    fn one() -> Self {
        BinaryField1b { bit: true }
    }

    fn add(self, rhs: Self) -> Self {
        BinaryField1b { bit: self.bit != rhs.bit }
    }

    fn mul(self, rhs: Self) -> Self {
        BinaryField1b { bit: self.bit && rhs.bit }
    }

    fn equals(self, other: Self) -> bool {
        self.bit == other.bit
    }

    fn characteristic() -> usize {
        2
    }
}

impl TowerField for BinaryField1b {
    open spec fn spec_tower_level() -> nat {
        0
    }

    open spec fn spec_min_tower_level(self) -> nat {
        0
    }

    proof fn law_min_tower_level_is_bounded(self) {
    }

    fn tower_level() -> usize {
        0
    }

    fn min_tower_level(self) -> usize {
        0
    }
}

impl BinaryTower for BinaryField1b {
    open spec fn spec_generator() -> Self {
        Self::spec_one()
    }

    open spec fn spec_width() -> nat {
        1
    }

    open spec fn spec_from_bits(bits: u128) -> Self {
        BinaryField1b { bit: bits & 1 == 1 }
    }

    open spec fn spec_to_bits(self) -> u128 {
        if self.bit {
            1
        } else {
            0
        }
    }

    proof fn law_binary() {
    }

    proof fn law_width() {
        vstd::arithmetic::power2::lemma2_to64();
    }

    proof fn law_from_bits_reads_low_bits(a: u128, b: u128) {
        assert(low_bits(1) == 1) by (bit_vector);
    }

    proof fn law_from_bits_adds(a: u128, b: u128) {
        assert(((a ^ b) & 1 == 1) == ((a & 1 == 1) != (b & 1 == 1))) by (bit_vector);
    }

    proof fn law_bits_give_element(self) {
        assert(1u128 & 1 == 1 && 0u128 & 1 == 0) by (bit_vector);
    }

    proof fn law_element_gives_bits(bits: u128) {
        assert(low_bits(1) == 1) by (bit_vector);
        assert(bits & 1 == 0 || bits & 1 == 1) by (bit_vector);
    }

    fn generator() -> Self {
        Self::one()
    }

    fn width() -> u128 {
        1
    }

    fn from_bits(bits: u128) -> Self {
        BinaryField1b { bit: bits & 1 == 1 }
    }

    fn to_bits(self) -> u128 {
        if self.bit {
            1
        } else {
            0
        }
    }
}

/// `(a.lo + a.hi * x) * (b.lo + b.hi * x)`, where `x * x == x * g + 1`.
#[verifier::opaque]
pub open spec fn extension_product<T: BinaryTower>(a: Extension<T>, b: Extension<T>) -> Extension<T> {
    Extension {
        lo: a.lo * b.lo + a.hi * b.hi,
        hi: (a.lo * b.hi + a.hi * b.lo) + (a.hi * b.hi) * T::spec_generator(),
    }
}

impl<T: BinaryTower> Operations for Extension<T> {
    open spec fn spec_zero() -> Self {
        Extension { lo: T::spec_zero(), hi: T::spec_zero() }
    }

    open spec fn spec_one() -> Self {
        Extension { lo: T::spec_one(), hi: T::spec_zero() }
    }

    open spec fn spec_add(self, rhs: Self) -> Self {
        Extension { lo: self.lo + rhs.lo, hi: self.hi + rhs.hi }
    }

    open spec fn spec_mul(self, rhs: Self) -> Self {
        extension_product(self, rhs)
    }

    open spec fn spec_neg(self) -> Self {
        Extension { lo: self.lo.spec_neg(), hi: self.hi.spec_neg() }
    }
}

proof fn lemma_lower_half_associates<F: Field>(a: Extension<F>, b: Extension<F>, c: Extension<F>, g: F)
    ensures
        (a.lo * b.lo + a.hi * b.hi) * c.lo + ((a.lo * b.hi + a.hi * b.lo) + (a.hi * b.hi) * g) * c.hi
            == a.lo * (b.lo * c.lo + b.hi * c.hi) + a.hi * ((b.lo * c.hi + b.hi * c.lo) + (b.hi
            * c.hi) * g),
{
    let p = a.lo * b.lo * c.lo;
    let q = a.hi * b.hi * c.lo;
    let r = a.lo * b.hi * c.hi;
    let s = a.hi * b.lo * c.hi;
    let t = a.hi * b.hi * g * c.hi;
    field::lemma_mul_distributes_right(a.lo * b.lo, a.hi * b.hi, c.lo);
    field::lemma_mul_distributes_right(a.lo * b.hi + a.hi * b.lo, a.hi * b.hi * g, c.hi);
    field::lemma_mul_distributes_right(a.lo * b.hi, a.hi * b.lo, c.hi);
    F::law_mul_distributes(a.lo, b.lo * c.lo, b.hi * c.hi);
    F::law_mul_distributes(a.hi, b.lo * c.hi + b.hi * c.lo, b.hi * c.hi * g);
    F::law_mul_distributes(a.hi, b.lo * c.hi, b.hi * c.lo);
    F::law_mul_associates(a.lo, b.lo, c.lo);
    F::law_mul_associates(a.hi, b.hi, c.lo);
    F::law_mul_associates(a.lo, b.hi, c.hi);
    F::law_mul_associates(a.hi, b.lo, c.hi);
    assert(a.hi * (b.hi * c.hi * g) == t) by {
        F::law_mul_associates(b.hi, c.hi, g);
        F::law_mul_commutes(c.hi, g);
        F::law_mul_associates(b.hi, g, c.hi);
        F::law_mul_associates(a.hi, b.hi * g, c.hi);
        F::law_mul_associates(a.hi, b.hi, g);
    }
    assert((p + q) + ((r + s) + t) == (p + r) + ((s + q) + t)) by {
        F::law_add_associates(p + q, r + s, t);
        field::lemma_add_swaps_middle(p, q, r, s);
        F::law_add_commutes(q, s);
        F::law_add_associates(p + r, s + q, t);
    }
}

proof fn lemma_upper_half_associates<F: Field>(a: Extension<F>, b: Extension<F>, c: Extension<F>, g: F)
    ensures
        ((a.lo * b.lo + a.hi * b.hi) * c.hi + ((a.lo * b.hi + a.hi * b.lo) + a.hi * b.hi * g)
            * c.lo) + (((a.lo * b.hi + a.hi * b.lo) + a.hi * b.hi * g) * c.hi) * g == (a.lo * ((b.lo
            * c.hi + b.hi * c.lo) + b.hi * c.hi * g) + a.hi * (b.lo * c.lo + b.hi * c.hi)) + (a.hi
            * ((b.lo * c.hi + b.hi * c.lo) + b.hi * c.hi * g)) * g,
{
    let t1 = a.lo * b.lo * c.hi;
    let t2 = a.hi * b.hi * c.hi;
    let t3 = a.lo * b.hi * c.lo;
    let t4 = a.hi * b.lo * c.lo;
    let t5 = a.hi * b.hi * c.lo * g;
    let t6 = a.lo * b.hi * c.hi * g;
    let t7 = a.hi * b.lo * c.hi * g;
    let t8 = a.hi * b.hi * c.hi * g * g;
    // The left side is ((t1 + t2) + ((t3 + t4) + t5)) + ((t6 + t7) + t8).
    field::lemma_mul_distributes_right(a.lo * b.lo, a.hi * b.hi, c.hi);
    field::lemma_mul_distributes_right(a.lo * b.hi + a.hi * b.lo, a.hi * b.hi * g, c.lo);
    field::lemma_mul_distributes_right(a.lo * b.hi, a.hi * b.lo, c.lo);
    field::lemma_mul_distributes_right(a.lo * b.hi + a.hi * b.lo, a.hi * b.hi * g, c.hi);
    field::lemma_mul_distributes_right(a.lo * b.hi, a.hi * b.lo, c.hi);
    field::lemma_mul_distributes_right(
        a.lo * b.hi * c.hi + a.hi * b.lo * c.hi,
        a.hi * b.hi * g * c.hi,
        g,
    );
    field::lemma_mul_distributes_right(a.lo * b.hi * c.hi, a.hi * b.lo * c.hi, g);
    assert(a.hi * b.hi * g * c.lo == t5) by {
        lemma_mul_swaps_last(a.hi * b.hi, g, c.lo);
    }
    assert(a.hi * b.hi * g * c.hi * g == t8) by {
        lemma_mul_swaps_last(a.hi * b.hi, g, c.hi);
    }
    // The right side is (((t1 + t3) + t6) + (t4 + t2)) + ((t7 + t5) + t8).
    F::law_mul_distributes(a.lo, b.lo * c.hi + b.hi * c.lo, b.hi * c.hi * g);
    F::law_mul_distributes(a.lo, b.lo * c.hi, b.hi * c.lo);
    F::law_mul_distributes(a.hi, b.lo * c.lo, b.hi * c.hi);
    F::law_mul_distributes(a.hi, b.lo * c.hi + b.hi * c.lo, b.hi * c.hi * g);
    F::law_mul_distributes(a.hi, b.lo * c.hi, b.hi * c.lo);
    F::law_mul_associates(a.lo, b.lo, c.hi);
    F::law_mul_associates(a.lo, b.hi, c.lo);
    F::law_mul_associates(a.hi, b.lo, c.lo);
    F::law_mul_associates(a.hi, b.hi, c.hi);
    F::law_mul_associates(a.hi, b.lo, c.hi);
    F::law_mul_associates(a.hi, b.hi, c.lo);
    assert(a.lo * (b.hi * c.hi * g) == t6) by {
        F::law_mul_associates(a.lo, b.hi * c.hi, g);
        F::law_mul_associates(a.lo, b.hi, c.hi);
    }
    assert(a.hi * (b.hi * c.hi * g) == a.hi * b.hi * c.hi * g) by {
        F::law_mul_associates(a.hi, b.hi * c.hi, g);
    }
    field::lemma_mul_distributes_right(
        a.hi * b.lo * c.hi + a.hi * b.hi * c.lo,
        a.hi * b.hi * c.hi * g,
        g,
    );
    field::lemma_mul_distributes_right(a.hi * b.lo * c.hi, a.hi * b.hi * c.lo, g);
    lemma_sums_of_eight_agree(t1, t2, t3, t4, t5, t6, t7, t8);
}

proof fn lemma_mul_swaps_last<F: Field>(a: F, b: F, c: F)
    ensures
        a * b * c == a * c * b,
{
    F::law_mul_associates(a, b, c);
    F::law_mul_commutes(b, c);
    F::law_mul_associates(a, c, b);
}

proof fn lemma_sums_of_eight_agree<F: Field>(t1: F, t2: F, t3: F, t4: F, t5: F, t6: F, t7: F, t8: F)
    ensures
        ((t1 + t2) + ((t3 + t4) + t5)) + ((t6 + t7) + t8) == (((t1 + t3) + t6) + (t4 + t2)) + ((t7
            + t5) + t8),
{
    let x = (t1 + t2) + (t3 + t4);
    assert(((t1 + t2) + ((t3 + t4) + t5)) + ((t6 + t7) + t8) == x + ((t5 + t6) + (t7 + t8))) by {
        F::law_add_associates(t1 + t2, t3 + t4, t5);
        F::law_add_associates(x, t5, (t6 + t7) + t8);
        F::law_add_associates(t6, t7, t8);
        F::law_add_associates(t5, t6, t7 + t8);
    }
    assert(((t1 + t3) + t6) + (t4 + t2) == x + t6) by {
        F::law_add_associates(t1 + t3, t6, t4 + t2);
        F::law_add_commutes(t6, t4 + t2);
        F::law_add_associates(t1 + t3, t4 + t2, t6);
        F::law_add_commutes(t4, t2);
        field::lemma_add_swaps_middle(t1, t3, t2, t4);
    }
    assert((x + t6) + ((t7 + t5) + t8) == x + ((t5 + t6) + (t7 + t8))) by {
        F::law_add_associates(x, t6, (t7 + t5) + t8);
        F::law_add_commutes(t7, t5);
        F::law_add_associates(t5, t7, t8);
        F::law_add_associates(t6, t5, t7 + t8);
        F::law_add_commutes(t6, t5);
    }
}

impl<T: BinaryTower> Field for Extension<T> {
    open spec fn spec_characteristic() -> nat {
        2
    }

    proof fn law_add_commutes(a: Self, b: Self) {
        T::law_add_commutes(a.lo, b.lo);
        T::law_add_commutes(a.hi, b.hi);
    }

    proof fn law_add_associates(a: Self, b: Self, c: Self) {
        T::law_add_associates(a.lo, b.lo, c.lo);
        T::law_add_associates(a.hi, b.hi, c.hi);
    }

    proof fn law_add_zero(a: Self) {
        T::law_add_zero(a.lo);
        T::law_add_zero(a.hi);
    }

    proof fn law_add_neg(a: Self) {
        T::law_add_neg(a.lo);
        T::law_add_neg(a.hi);
    }

    proof fn law_mul_commutes(a: Self, b: Self) {
        reveal(extension_product);
        T::law_mul_commutes(a.lo, b.lo);
        T::law_mul_commutes(a.lo, b.hi);
        T::law_mul_commutes(a.hi, b.lo);
        T::law_mul_commutes(a.hi, b.hi);
        T::law_add_commutes(a.lo * b.hi, a.hi * b.lo);
    }

    proof fn law_mul_associates(a: Self, b: Self, c: Self) {
        reveal(extension_product);
        lemma_lower_half_associates(a, b, c, T::spec_generator());
        lemma_upper_half_associates(a, b, c, T::spec_generator());
    }

    proof fn law_mul_one(a: Self) {
        reveal(extension_product);
        T::law_mul_one(a.lo);
        T::law_mul_one(a.hi);
        field::lemma_mul_zero(a.lo);
        field::lemma_mul_zero(a.hi);
        field::lemma_mul_zero(T::spec_generator());
        T::law_add_zero(a.lo);
        T::law_add_zero(a.hi);
        field::lemma_zero_add(a.hi);
    }

    proof fn law_one_is_not_zero() {
        T::law_one_is_not_zero();
    }

    proof fn law_mul_distributes(a: Self, b: Self, c: Self) {
        reveal(extension_product);
        let g = T::spec_generator();
        T::law_mul_distributes(a.lo, b.lo, c.lo);
        T::law_mul_distributes(a.hi, b.hi, c.hi);
        field::lemma_add_swaps_middle(a.lo * b.lo, a.lo * c.lo, a.hi * b.hi, a.hi * c.hi);
        T::law_mul_distributes(a.lo, b.hi, c.hi);
        T::law_mul_distributes(a.hi, b.lo, c.lo);
        field::lemma_add_swaps_middle(a.lo * b.hi, a.lo * c.hi, a.hi * b.lo, a.hi * c.lo);
        field::lemma_mul_distributes_right(a.hi * b.hi, a.hi * c.hi, g);
        field::lemma_add_swaps_middle(
            a.lo * b.hi + a.hi * b.lo,
            a.lo * c.hi + a.hi * c.lo,
            a.hi * b.hi * g,
            a.hi * c.hi * g,
        );
    }

    proof fn law_characteristic() {
        let one = T::spec_one();
        let zero = T::spec_zero();
        reveal_with_fuel(field::repeated, 3);
        T::law_binary();
        field::lemma_double_is_zero(one);
        field::lemma_zero_add(one);
        T::law_add_zero(zero);
    }

    fn zero() -> Self {
        Extension { lo: T::zero(), hi: T::zero() }
    }

    fn one() -> Self {
        Extension { lo: T::one(), hi: T::zero() }
    }

    fn add(self, rhs: Self) -> Self {
        Extension { lo: self.lo.add(rhs.lo), hi: self.hi.add(rhs.hi) }
    }

    fn mul(self, rhs: Self) -> Self {
        proof {
            reveal(extension_product);
        }
        let high: T = self.hi.mul(rhs.hi);
        let cross: T = self.lo.mul(rhs.hi).add(self.hi.mul(rhs.lo));
        Extension {
            lo: self.lo.mul(rhs.lo).add(high),
            hi: cross.add(high.mul(T::generator())),
        }
    }

    fn equals(self, other: Self) -> bool {
        self.lo.equals(other.lo) && self.hi.equals(other.hi)
    }

    fn characteristic() -> usize {
        2
    }
}

impl<T: BinaryTower> TowerField for Extension<T> {
    open spec fn spec_tower_level() -> nat {
        T::spec_tower_level() + 1
    }

    open spec fn spec_min_tower_level(self) -> nat {
        if self.hi == T::spec_zero() {
            self.lo.spec_min_tower_level()
        } else {
            Self::spec_tower_level()
        }
    }

    proof fn law_min_tower_level_is_bounded(self) {
        self.lo.law_min_tower_level_is_bounded();
    }

    fn tower_level() -> usize {
        T::tower_level() + 1
    }

    fn min_tower_level(self) -> usize {
        if self.hi.equals(T::zero()) {
            self.lo.min_tower_level()
        } else {
            Self::tower_level()
        }
    }
}

#[verifier::rlimit(60)]
proof fn lemma_shifted_exclusive_or(a: u128, b: u128, w: u128)
    by (bit_vector)
    requires
        w <= 64,
    ensures
        (a ^ b) >> w == (a >> w) ^ (b >> w),
{
}

proof fn lemma_halves_of_low_bits(a: u128, b: u128, w: u128, w2: u128)
    by (bit_vector)
    requires
        w <= 64,
        w2 == 2 * w,
        a & low_bits(w2) == b & low_bits(w2),
    ensures
        a & low_bits(w) == b & low_bits(w),
        (a >> w) & low_bits(w) == (b >> w) & low_bits(w),
{
}

proof fn lemma_joined_halves(l: u128, h: u128, w: u128)
    by (bit_vector)
    requires
        w <= 64,
        l == l & low_bits(w),
        h == h & low_bits(w),
    ensures
        (l | (h << w)) & low_bits(w) == l & low_bits(w),
        ((l | (h << w)) >> w) & low_bits(w) == h & low_bits(w),
{
}

proof fn lemma_split_word(bits: u128, w: u128, w2: u128)
    by (bit_vector)
    requires
        w <= 64,
        w2 == 2 * w,
    ensures
        (bits & low_bits(w)) | (((bits >> w) & low_bits(w)) << w) == bits & low_bits(w2),
{
}

impl<T: BinaryTower> BinaryTower for Extension<T> {
    open spec fn spec_generator() -> Self {
        Extension { lo: T::spec_zero(), hi: T::spec_one() }
    }

    open spec fn spec_width() -> nat {
        2 * T::spec_width()
    }

    open spec fn spec_from_bits(bits: u128) -> Self {
        Extension {
            lo: T::spec_from_bits(bits),
            hi: T::spec_from_bits(bits >> (T::spec_width() as u128)),
        }
    }

    open spec fn spec_to_bits(self) -> u128 {
        self.lo.spec_to_bits() | (self.hi.spec_to_bits() << (T::spec_width() as u128))
    }

    proof fn law_binary() {
    }

    proof fn law_width() {
        T::law_width();
        vstd::arithmetic::power2::lemma_pow2_unfold(Self::spec_tower_level());
    }

    proof fn law_from_bits_reads_low_bits(a: u128, b: u128) {
        let w = T::spec_width() as u128;
        let w2 = Self::spec_width() as u128;
        lemma_halves_of_low_bits(a, b, w, w2);
        T::law_from_bits_reads_low_bits(a, b);
        T::law_from_bits_reads_low_bits(a >> w, b >> w);
    }

    proof fn law_from_bits_adds(a: u128, b: u128) {
        let w = T::spec_width() as u128;
        lemma_shifted_exclusive_or(a, b, w);
        T::law_from_bits_adds(a, b);
        T::law_from_bits_adds(a >> w, b >> w);
    }

    proof fn law_bits_give_element(self) {
        let w = T::spec_width() as u128;
        let l = self.lo.spec_to_bits();
        let h = self.hi.spec_to_bits();
        T::law_width();
        self.lo.law_bits_give_element();
        self.hi.law_bits_give_element();
        T::law_element_gives_bits(l);
        T::law_element_gives_bits(h);
        lemma_joined_halves(l, h, w);
        T::law_from_bits_reads_low_bits(l | (h << w), l);
        T::law_from_bits_reads_low_bits((l | (h << w)) >> w, h);
    }

    proof fn law_element_gives_bits(bits: u128) {
        let w = T::spec_width() as u128;
        let w2 = Self::spec_width() as u128;
        T::law_element_gives_bits(bits);
        T::law_element_gives_bits(bits >> w);
        lemma_split_word(bits, w, w2);
    }

    fn generator() -> Self {
        Extension { lo: T::zero(), hi: T::one() }
    }

    fn width() -> u128 {
        2 * T::width()
    }

    fn from_bits(bits: u128) -> Self {
        Extension { lo: T::from_bits(bits), hi: T::from_bits(bits >> T::width()) }
    }

    fn to_bits(self) -> u128 {
        self.lo.to_bits() | (self.hi.to_bits() << T::width())
    }
}

} // verus!

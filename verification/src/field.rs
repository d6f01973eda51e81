//! What expressions ask of the field that their constants come from, and the facts of field
//! arithmetic that the rest of the crate uses.
use vstd::prelude::*;

verus! {

/// The operations of a field, as mathematical functions.
pub trait Operations: Copy {
    /// The neutral element of addition.
    spec fn spec_zero() -> Self;

    /// The neutral element of multiplication.
    spec fn spec_one() -> Self;

    spec fn spec_add(self, rhs: Self) -> Self;

    spec fn spec_mul(self, rhs: Self) -> Self;

    /// The additive inverse.
    spec fn spec_neg(self) -> Self;
}

/// The part of field arithmetic that expressions use: addition, multiplication and the
/// characteristic, with the laws of a commutative ring. Division is never needed.
pub trait Field: Operations {
    /// The characteristic: as many ones as this add up to zero.
    spec fn spec_characteristic() -> nat;

    proof fn law_add_commutes(a: Self, b: Self)
        ensures
            a + b == b + a,
    ;

    proof fn law_add_associates(a: Self, b: Self, c: Self)
        ensures
            (a + b) + c == a + (b + c),
    ;

    proof fn law_add_zero(a: Self)
        ensures
            a + Self::spec_zero() == a,
    ;

    proof fn law_add_neg(a: Self)
        ensures
            a + a.spec_neg() == Self::spec_zero(),
    ;

    proof fn law_mul_commutes(a: Self, b: Self)
        ensures
            a * b == b * a,
    ;

    proof fn law_mul_associates(a: Self, b: Self, c: Self)
        ensures
            (a * b) * c == a * (b * c),
    ;

    proof fn law_mul_one(a: Self)
        ensures
            a * Self::spec_one() == a,
    ;

    proof fn law_one_is_not_zero()
        ensures
            Self::spec_one() != Self::spec_zero(),
    ;

    proof fn law_mul_distributes(a: Self, b: Self, c: Self)
        ensures
            a * (b + c) == a * b + a * c,
    ;

    proof fn law_characteristic()
        ensures
            repeated(Self::spec_one(), Self::spec_characteristic()) == Self::spec_zero(),
    ;

    fn zero() -> (r: Self)
        ensures
            r == Self::spec_zero(),
    ;

    fn one() -> (r: Self)
        ensures
            r == Self::spec_one(),
    ;

    fn add(self, rhs: Self) -> (r: Self)
        ensures
            r == self + rhs,
    ;

    fn mul(self, rhs: Self) -> (r: Self)
        ensures
            r == self * rhs,
    ;

    fn equals(self, other: Self) -> (r: bool)
        ensures
            r == (self == other),
    ;

    fn characteristic() -> (r: usize)
        ensures
            r == Self::spec_characteristic(),
    ;
}

/// `a + a + ... + a`, `n` times.
pub open spec fn repeated<F: Operations>(a: F, n: nat) -> F
    decreases n,
{
    if n == 0 {
        F::spec_zero()
    } else {
        repeated(a, (n - 1) as nat) + a
    }
}

/// `base * base * ... * base`, `exp` times.
pub open spec fn power<F: Operations>(base: F, exp: nat) -> F
    decreases exp,
{
    if exp == 0 {
        F::spec_one()
    } else {
        base * power(base, (exp - 1) as nat)
    }
}

pub proof fn lemma_zero_add<F: Field>(a: F)
    ensures
        F::spec_zero() + a == a,
{
    F::law_add_commutes(F::spec_zero(), a);
    F::law_add_zero(a);
}

pub proof fn lemma_one_mul<F: Field>(a: F)
    ensures
        F::spec_one() * a == a,
{
    F::law_mul_commutes(F::spec_one(), a);
    F::law_mul_one(a);
}

pub proof fn lemma_add_cancels<F: Field>(a: F, b: F, c: F)
    requires
        a + b == a + c,
    ensures
        b == c,
{
    let n = a.spec_neg();
    F::law_add_neg(a);
    F::law_add_commutes(a, n);
    F::law_add_associates(n, a, b);
    F::law_add_associates(n, a, c);
    lemma_zero_add(b);
    lemma_zero_add(c);
}

pub proof fn lemma_mul_zero<F: Field>(a: F)
    ensures
        a * F::spec_zero() == F::spec_zero(),
        F::spec_zero() * a == F::spec_zero(),
{
    let z = F::spec_zero();
    F::law_mul_distributes(a, z, z);
    F::law_add_zero(z);
    F::law_add_zero(a * z);
    lemma_add_cancels(a * z, a * z, z);
    F::law_mul_commutes(a, z);
}

pub proof fn lemma_mul_distributes_right<F: Field>(a: F, b: F, c: F)
    ensures
        (a + b) * c == a * c + b * c,
{
    F::law_mul_commutes(a + b, c);
    F::law_mul_distributes(c, a, b);
    F::law_mul_commutes(c, a);
    F::law_mul_commutes(c, b);
}

/// Where two ones add up to zero, so do two of anything.
pub proof fn lemma_double_is_zero<F: Field>(a: F)
    requires
        F::spec_characteristic() == 2,
    ensures
        a + a == F::spec_zero(),
{
    let one = F::spec_one();
    F::law_characteristic();
    reveal_with_fuel(repeated, 3);
    lemma_zero_add(one);
    F::law_mul_distributes(a, one, one);
    F::law_mul_one(a);
    lemma_mul_zero(a);
}

pub proof fn lemma_add_swaps_middle<F: Field>(a: F, b: F, c: F, d: F)
    ensures
        (a + b) + (c + d) == (a + c) + (b + d),
{
    F::law_add_associates(a, b, c + d);
    F::law_add_associates(b, c, d);
    F::law_add_commutes(b, c);
    F::law_add_associates(c, b, d);
    F::law_add_associates(a, c, b + d);
}

pub proof fn lemma_mul_swaps_middle<F: Field>(a: F, b: F, c: F, d: F)
    ensures
        (a * b) * (c * d) == (a * c) * (b * d),
{
    F::law_mul_associates(a, b, c * d);
    F::law_mul_associates(b, c, d);
    F::law_mul_commutes(b, c);
    F::law_mul_associates(c, b, d);
    F::law_mul_associates(a, c, b * d);
}

pub proof fn lemma_power_one<F: Field>(base: F)
    ensures
        power(base, 1) == base,
{
    reveal_with_fuel(power, 2);
    F::law_mul_one(base);
}

pub proof fn lemma_power_adds<F: Field>(base: F, m: nat, n: nat)
    ensures
        power(base, m + n) == power(base, m) * power(base, n),
    decreases m,
{
    if m == 0 {
        lemma_one_mul(power(base, n));
    } else {
        let m1 = (m - 1) as nat;
        lemma_power_adds(base, m1, n);
        assert((m + n - 1) as nat == m1 + n);
        F::law_mul_associates(base, power(base, m1), power(base, n));
    }
}

pub proof fn lemma_power_of_product<F: Field>(a: F, b: F, exp: nat)
    ensures
        power(a * b, exp) == power(a, exp) * power(b, exp),
    decreases exp,
{
    if exp == 0 {
        F::law_mul_one(F::spec_one());
    } else {
        let e1 = (exp - 1) as nat;
        lemma_power_of_product(a, b, e1);
        lemma_mul_swaps_middle(a, b, power(a, e1), power(b, e1));
    }
}

pub proof fn lemma_power_of_power<F: Field>(base: F, m: nat, n: nat)
    ensures
        power(power(base, m), n) == power(base, m * n),
    decreases n,
{
    if n == 0 {
        assert(m * n == 0);
    } else {
        let n1 = (n - 1) as nat;
        lemma_power_of_power(base, m, n1);
        assert(m * n == m + m * n1) by (nonlinear_arith)
            requires
                n1 == n - 1,
        ;
        lemma_power_adds(base, m, m * n1);
    }
}

/// The step of repeated squaring.
proof fn lemma_power_of_square<F: Field>(base: F, half: nat)
    ensures
        power(base * base, half) == power(base, 2 * half),
{
    reveal_with_fuel(power, 3);
    F::law_mul_one(base);
    assert(power(base, 2) == base * base);
    lemma_power_of_power(base, 2, half);
}

/// Raises to a power by repeated squaring. The power zero of every element is one.
pub fn pow<F: Field>(value: F, exp: u64) -> (r: F)
    ensures
        r == power(value, exp as nat),
{
    let mut result: F = F::one();
    let mut base: F = value;
    let mut rest: u64 = exp;
    proof {
        lemma_one_mul(power(value, exp as nat));
    }
    while rest > 0
        invariant
            result * power(base, rest as nat) == power(value, exp as nat),
        decreases rest,
    {
        let ghost half = (rest / 2) as nat;
        proof {
            lemma_power_of_square(base, half);
            if rest % 2 == 1 {
                assert(power(base, rest as nat) == base * power(base, 2 * half));
                F::law_mul_associates(result, base, power(base, 2 * half));
            }
        }
        if rest % 2 == 1 {
            result = result.mul(base);
        }
        base = base.mul(base);
        rest = rest / 2;
    }
    proof {
        F::law_mul_one(result);
    }
    result
}

/// `n` zeros.
pub fn zeros<F: Field>(n: usize) -> (r: Vec<F>)
    ensures
        r@ == Seq::new(n as nat, |i: int| F::spec_zero()),
{
    let mut r: Vec<F> = Vec::new();
    let mut k: usize = 0;
    while k < n
        invariant
            k <= n,
            r@ == Seq::new(k as nat, |i: int| F::spec_zero()),
        decreases n - k,
    {
        r.push(F::zero());
        k = k + 1;
    }
    r
}

/// Whether every element is zero.
pub fn all_zero<F: Field>(v: &Vec<F>) -> (r: bool)
    ensures
        r == is_all_zero(v@),
{
    let mut k: usize = 0;
    while k < v.len()
        invariant
            k <= v.len(),
            forall|i: int| 0 <= i < k ==> v@[i] == F::spec_zero(),
        decreases v.len() - k,
    {
        if !v[k].equals(F::zero()) {
            assert(v@[k as int] != F::spec_zero());
            return false;
        }
        k = k + 1;
    }
    true
}

pub open spec fn is_all_zero<F: Operations>(s: Seq<F>) -> bool {
    forall|i: int| 0 <= i < s.len() ==> s[i] == F::spec_zero()
}

} // verus!

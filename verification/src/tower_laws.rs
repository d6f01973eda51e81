//! What holds of the fields of the binary tower, and of expressions over them.
use vstd::prelude::*;
use vstd::std_specs::convert::{FromSpec, TryFromSpec};

use crate::convert;
use crate::expr::ArithExpr;
use crate::field;
use crate::field::{Field, Operations};
use crate::parts;
use crate::subfield::NotInSubfield;
use crate::tower;
use crate::tower::{
    BinaryField128b, BinaryField1b, BinaryField8b, BinaryTower, Extension, TowerField,
};

verus! {

proof fn lemma_homomorphisms_compose<F: Field, G: Field, H: Field>(
    f: spec_fn(F) -> G,
    g: spec_fn(G) -> H,
)
    requires
        convert::is_homomorphism(f),
        convert::is_homomorphism(g),
    ensures
        convert::is_homomorphism(|value: F| g(f(value))),
{
    let h = |value: F| g(f(value));
    assert forall|a: F, b: F| #[trigger] h(a + b) == h(a) + h(b) by {
        assert(f(a + b) == f(a) + f(b));
        assert(g(f(a) + f(b)) == g(f(a)) + g(f(b)));
    }
    assert forall|a: F, b: F| #[trigger] h(a * b) == h(a) * h(b) by {
        assert(f(a * b) == f(a) * f(b));
        assert(g(f(a) * f(b)) == g(f(a)) * g(f(b)));
    }
}

/// A field of the tower lies inside the next one with its arithmetic.
pub proof fn law_embedding_is_homomorphism<T: BinaryTower>()
    ensures
        convert::is_homomorphism(|value: T| Extension::spec_embed(value)),
{
    let f = |value: T| Extension::spec_embed(value);
    let zero = T::spec_zero();
    assert forall|a: T, b: T| #[trigger] f(a + b) == f(a) + f(b) by {
        T::law_add_zero(zero);
    }
    assert forall|a: T, b: T| #[trigger] f(a * b) == f(a) * f(b) by {
        reveal(tower::extension_product);
        field::lemma_mul_zero(zero);
        field::lemma_mul_zero(a);
        field::lemma_mul_zero(b);
        field::lemma_mul_zero(T::spec_generator());
        T::law_add_zero(a * b);
        T::law_add_zero(zero);
    }
}

proof fn lemma_double_embedding_is_homomorphism<T: BinaryTower>()
    ensures
        convert::is_homomorphism(|value: T| Extension::spec_embed(Extension::spec_embed(value))),
{
    let f = |value: T| Extension::spec_embed(value);
    let g = |value: Extension<T>| Extension::spec_embed(value);
    law_embedding_is_homomorphism::<T>();
    law_embedding_is_homomorphism::<Extension<T>>();
    lemma_homomorphisms_compose(f, g);
    assert((|value: T| g(f(value))) =~= (|value: T|
        Extension::spec_embed(Extension::spec_embed(value))));
}

proof fn lemma_fourfold_embedding_is_homomorphism<T: BinaryTower>()
    ensures
        convert::is_homomorphism(
            |value: T|
                Extension::spec_embed(
                    Extension::spec_embed(Extension::spec_embed(Extension::spec_embed(value))),
                ),
        ),
{
    let f = |value: T| Extension::spec_embed(Extension::spec_embed(value));
    let g = |value: Extension<Extension<T>>| Extension::spec_embed(Extension::spec_embed(value));
    lemma_double_embedding_is_homomorphism::<T>();
    lemma_double_embedding_is_homomorphism::<Extension<Extension<T>>>();
    lemma_homomorphisms_compose(f, g);
    assert((|value: T| g(f(value))) =~= (|value: T|
        Extension::spec_embed(
            Extension::spec_embed(Extension::spec_embed(Extension::spec_embed(value))),
        )));
}

/// The field of eight bits lies inside the field of 128 bits with its arithmetic.
pub proof fn law_upcast_is_homomorphism()
    ensures
        convert::is_homomorphism(|value: BinaryField8b| BinaryField128b::from_spec(value)),
{
    lemma_fourfold_embedding_is_homomorphism::<BinaryField8b>();
    assert((|value: BinaryField8b| BinaryField128b::from_spec(value)) =~= (|value: BinaryField8b|
        Extension::spec_embed(
            Extension::spec_embed(Extension::spec_embed(Extension::spec_embed(value))),
        )));
}

/// An expression over the field of eight bits, converted to the field of 128 bits, has there the
/// values that it had.
pub proof fn law_upcast_evaluates(
    e: ArithExpr<BinaryField8b>,
    point: spec_fn(nat) -> BinaryField8b,
)
    ensures
        e.mapped(|value: BinaryField8b| BinaryField128b::from_spec(value)).eval(
            |i: nat| BinaryField128b::from_spec(point(i)),
        ) == BinaryField128b::from_spec(e.eval(point)),
{
    let f = |value: BinaryField8b| BinaryField128b::from_spec(value);
    law_upcast_is_homomorphism();
    convert::law_mapped_evaluates(e, f, point);
    assert((|i: nat| f(point(i))) =~= (|i: nat| BinaryField128b::from_spec(point(i))));
}

/// The conversion to the field of 128 bits can be taken back: it gives the expression it came
/// from.
pub proof fn law_downcast_undoes_upcast(e: ArithExpr<BinaryField8b>)
    ensures
        e.mapped(|value: BinaryField8b| BinaryField128b::from_spec(value)).try_mapped(
            |value: BinaryField128b| BinaryField8b::try_from_spec(value),
        ) == Ok::<ArithExpr<BinaryField8b>, NotInSubfield>(e),
{
    convert::law_try_mapped_undoes_mapped(
        e,
        |value: BinaryField8b| BinaryField128b::from_spec(value),
        |value: BinaryField128b| BinaryField8b::try_from_spec(value),
    );
}

/// The embedding of a field of the tower into the next one loses nothing, and an element has a
/// projection exactly where it is the embedding of it.
pub proof fn law_projection_undoes_embedding<T: BinaryTower>(element: Extension<T>, value: T)
    ensures
        Extension::spec_embed(value).spec_project() == Some(value),
        element.spec_project() == Some(value) <==> element == Extension::spec_embed(value),
{
}

/// The levels of the tower are counted from zero. An element needs no more than the level below
/// exactly where it lies in the field below, and then the level that it needs there; any other
/// element needs the level of its own field.
pub proof fn law_min_tower_level<T: BinaryTower>(element: Extension<T>, value: T)
    ensures
        BinaryField1b::spec_tower_level() == 0,
        Extension::<T>::spec_tower_level() == T::spec_tower_level() + 1,
        element.spec_min_tower_level() <= T::spec_tower_level() <==> exists|below: T|
            element == #[trigger] Extension::spec_embed(below),
        Extension::spec_embed(value).spec_min_tower_level() == value.spec_min_tower_level(),
        element.spec_min_tower_level() > T::spec_tower_level() ==> element.spec_min_tower_level()
            == Extension::<T>::spec_tower_level(),
{
    element.lo.law_min_tower_level_is_bounded();
    value.law_min_tower_level_is_bounded();
    if element.hi == T::spec_zero() {
        assert(element == Extension::spec_embed(element.lo));
    }
}

/// Every element is `lo + hi * x` for the adjoined element `x`, and `x * x == x * g + 1` for the
/// element `g` that the field below adjoined; on the lowest level that is one. Together with the
/// laws of arithmetic and the embedding this fixes every sum and every product.
pub proof fn law_adjoined_element<T: BinaryTower>(element: Extension<T>)
    ensures
        BinaryField1b::spec_generator() == BinaryField1b::spec_one(),
        element == Extension::spec_embed(element.lo) + Extension::spec_embed(element.hi)
            * Extension::<T>::spec_generator(),
        Extension::<T>::spec_generator() * Extension::<T>::spec_generator() == Extension::<
            T,
        >::spec_generator() * Extension::spec_embed(T::spec_generator())
            + Extension::<T>::spec_one(),
{
    reveal(tower::extension_product);
    let zero = T::spec_zero();
    let one = T::spec_one();
    let g = T::spec_generator();
    field::lemma_mul_zero(zero);
    field::lemma_mul_zero(one);
    field::lemma_mul_zero(g);
    field::lemma_mul_zero(element.hi);
    field::lemma_one_mul(one);
    field::lemma_one_mul(g);
    T::law_mul_one(element.hi);
    T::law_add_zero(zero);
    T::law_add_zero(one);
    T::law_add_zero(g);
    T::law_add_zero(element.lo);
    T::law_add_zero(element.hi);
    field::lemma_zero_add(one);
    field::lemma_zero_add(g);
    field::lemma_zero_add(element.hi);
}

proof fn lemma_zero_word<T: BinaryTower>()
    requires
        T::spec_width() <= 128,
    ensures
        T::spec_from_bits(0) == T::spec_zero(),
        T::spec_zero().spec_to_bits() == 0,
{
    let x = T::spec_from_bits(0);
    let w = T::spec_width() as u128;
    assert(0u128 ^ 0u128 == 0) by (bit_vector);
    T::law_from_bits_adds(0, 0);
    T::law_binary();
    field::lemma_double_is_zero(x);
    T::law_element_gives_bits(0);
    assert(0u128 & tower::low_bits(w) == 0) by (bit_vector);
}

/// The word of an element of the field below is the word of its embedding.
pub proof fn law_embedding_keeps_bits<T: BinaryTower>(value: T)
    requires
        Extension::<T>::spec_width() <= 128,
    ensures
        Extension::spec_embed(value).spec_to_bits() == value.spec_to_bits(),
{
    let w = T::spec_width() as u128;
    let bits = value.spec_to_bits();
    lemma_zero_word::<T>();
    assert(bits | (0u128 << w) == bits) by (bit_vector);
}

/// A word of two halves is the element of which the lower half gives the one coordinate, and the
/// upper half that of the adjoined element.
pub proof fn law_word_of_two_halves<T: BinaryTower>(low: u128, high: u128)
    requires
        Extension::<T>::spec_width() <= 128,
        low == low & tower::low_bits(T::spec_width() as u128),
        high == high & tower::low_bits(T::spec_width() as u128),
    ensures
        Extension::<T>::spec_from_bits(low | (high << (T::spec_width() as u128)))
            == Extension::spec_embed(T::spec_from_bits(low)) + Extension::spec_embed(
            T::spec_from_bits(high),
        ) * Extension::<T>::spec_generator(),
{
    let w = T::spec_width() as u128;
    lemma_joined_word(low, high, w);
    T::law_from_bits_reads_low_bits(low | (high << w), low);
    T::law_from_bits_reads_low_bits((low | (high << w)) >> w, high);
    law_adjoined_element(
        Extension { lo: T::spec_from_bits(low), hi: T::spec_from_bits(high) },
    );
}

proof fn lemma_joined_word(low: u128, high: u128, w: u128)
    by (bit_vector)
    requires
        w <= 64,
        low == low & tower::low_bits(w),
        high == high & tower::low_bits(w),
    ensures
        (low | (high << w)) & tower::low_bits(w) == low & tower::low_bits(w),
        ((low | (high << w)) >> w) & tower::low_bits(w) == high & tower::low_bits(w),
{
}

/// On the lowest level the words zero and one are the elements zero and one.
pub proof fn law_lowest_words()
    ensures
        BinaryField1b::spec_from_bits(0) == BinaryField1b::spec_zero(),
        BinaryField1b::spec_from_bits(1) == BinaryField1b::spec_one(),
        BinaryField1b::spec_width() == 1,
{
    assert(1u128 & 1 == 1 && 0u128 & 1 == 0) by (bit_vector);
}

/// An element of the field of eight bits has the same word in the field of 128 bits.
pub proof fn law_upcast_keeps_bits(value: BinaryField8b)
    ensures
        BinaryField128b::from_spec(value).spec_to_bits() == value.spec_to_bits(),
{
    let v16 = Extension::spec_embed(value);
    let v32 = Extension::spec_embed(v16);
    let v64 = Extension::spec_embed(v32);
    law_embedding_keeps_bits(value);
    law_embedding_keeps_bits(v16);
    law_embedding_keeps_bits(v32);
    law_embedding_keeps_bits(v64);
}

/// The conversion to the field of eight bits succeeds exactly on the elements that come from
/// there, and gives the element that they come from: upcast and downcast undo each other.
pub proof fn law_downcast_is_exact(value: BinaryField128b, low: BinaryField8b)
    ensures
        BinaryField8b::try_from_spec(value) == Ok::<BinaryField8b, NotInSubfield>(low)
            <==> BinaryField128b::from_spec(low) == value,
        BinaryField8b::try_from_spec(value) is Ok <==> value.spec_min_tower_level() <= 3,
{
    lemma_level_of_upcast(value);
}

proof fn lemma_level_of_upcast(value: BinaryField128b)
    ensures
        value.spec_min_tower_level() <= 3 ==> value == Extension::spec_embed(
            Extension::spec_embed(
                Extension::spec_embed(Extension::spec_embed(value.lo.lo.lo.lo)),
            ),
        ),
        value.lo.lo.lo.lo.spec_min_tower_level() <= 3,
{
    value.lo.lo.lo.lo.law_min_tower_level_is_bounded();
}

/// The conversion to the field of two elements succeeds exactly on the elements that come from
/// there, and gives the element that they come from.
pub proof fn law_downcast_to_bit_is_exact(value: BinaryField128b, bit: BinaryField1b)
    ensures
        BinaryField1b::try_from_spec(value) == Ok::<BinaryField1b, NotInSubfield>(bit)
            <==> BinaryField128b::from_spec(
            Extension::spec_embed(Extension::spec_embed(Extension::spec_embed(bit))),
        ) == value,
        BinaryField1b::try_from_spec(value) is Ok <==> value.spec_min_tower_level() == 0,
{
}

/// Where an expression over the field of 128 bits can be converted to the field of eight bits, the
/// conversion back gives the expression it came from.
pub proof fn law_upcast_undoes_downcast(
    e: ArithExpr<BinaryField128b>,
    converted: ArithExpr<BinaryField8b>,
)
    requires
        e.try_mapped(|value: BinaryField128b| BinaryField8b::try_from_spec(value)) == Ok::<
            ArithExpr<BinaryField8b>,
            NotInSubfield,
        >(converted),
    ensures
        converted.mapped(|value: BinaryField8b| BinaryField128b::from_spec(value)) == e,
{
    let down = |value: BinaryField128b| BinaryField8b::try_from_spec(value);
    let up = |value: BinaryField8b| BinaryField128b::from_spec(value);
    assert forall|value: BinaryField128b| (#[trigger] down(value)) is Ok implies up(
        down(value)->Ok_0,
    ) == value by {
        law_downcast_is_exact(value, down(value)->Ok_0);
    }
    convert::law_mapped_undoes_try_mapped(e, down, up, converted);
}

/// An expression over the field of 128 bits can be converted to the field of eight bits exactly
/// where none of its constants needs a level above the third.
pub proof fn law_downcast_succeeds(e: ArithExpr<BinaryField128b>)
    ensures
        e.try_mapped(|value: BinaryField128b| BinaryField8b::try_from_spec(value)) is Ok
            <==> e.level_bound() <= 3,
{
    let down = |value: BinaryField128b| BinaryField8b::try_from_spec(value);
    if e.try_mapped(down) is Ok && e.level_bound() > 3 {
        parts::law_level_of_parts(e, BinaryField128b::spec_zero());
        let c = choose|c: BinaryField128b| #[trigger]
            e.has_part(ArithExpr::Const(c)) && c.spec_min_tower_level() == e.level_bound();
        convert::law_try_mapped_reads_constants(e, down, c);
        law_downcast_is_exact(c, c.lo.lo.lo.lo);
    }
    if let Err(error) = e.try_mapped(down) {
        convert::law_try_mapped_reads_constants(e, down, BinaryField128b::spec_zero());
        let c = choose|c: BinaryField128b| #[trigger]
            e.has_part(ArithExpr::Const(c)) && down(c) == Err::<BinaryField8b, NotInSubfield>(
                error,
            );
        parts::law_level_of_parts(e, c);
        law_downcast_is_exact(c, c.lo.lo.lo.lo);
    }
}

} // verus!

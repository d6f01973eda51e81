use arith_expr::field::pow;
use arith_expr::tower::Extension;
use arith_expr::{BinaryField128b, BinaryField1b, BinaryField8b, BinaryTower, Field, FieldText, TowerField};

#[test]
fn two_elements() {
    let zero = BinaryField1b::zero();
    let one = BinaryField1b::one();
    assert_eq!(one.add(one), zero);
    assert_eq!(one.mul(one), one);
    assert_eq!(one.mul(zero), zero);
    assert_eq!(BinaryField1b::characteristic(), 2);
    assert_eq!(BinaryField1b::tower_level(), 0);
}

#[test]
fn addition_is_exclusive_or() {
    for (a, b) in [(0u8, 0u8), (5, 3), (255, 170), (16, 17)] {
        assert_eq!(BinaryField8b::new(a) + BinaryField8b::new(b), BinaryField8b::new(a ^ b));
    }
}

#[test]
fn each_level_adjoins_a_root() {
    // x * x == x * g + 1, where g is the root that the level below adjoined
    assert_eq!(BinaryField8b::new(2) * BinaryField8b::new(2), BinaryField8b::new(3));
    assert_eq!(BinaryField8b::new(4) * BinaryField8b::new(4), BinaryField8b::new(9));
    assert_eq!(BinaryField8b::new(16) * BinaryField8b::new(16), BinaryField8b::new(65));
    let x = BinaryField128b::generator();
    let g = BinaryField128b::new(1 << 32);
    assert_eq!(x * x, x * g + BinaryField128b::one());
}

#[test]
fn nonzero_bytes_are_powers_of_one_generator() {
    let generator = BinaryField8b::new(0x2d);
    assert_eq!(pow(generator, 255), BinaryField8b::one());
    assert_eq!(pow(generator, 0), BinaryField8b::one());
    for divisor in [85u64, 51, 15] {
        assert_ne!(pow(generator, divisor), BinaryField8b::one());
    }
}

#[test]
fn multiplication_is_associative_and_distributes() {
    let a = BinaryField128b::new(0x0123456789abcdef_fedcba9876543210);
    let b = BinaryField128b::new(0xdeadbeef_00000000_00000000_cafebabe);
    let c = BinaryField128b::new(0x55555555aaaaaaaa_5555555555555555);
    assert_eq!((a * b) * c, a * (b * c));
    assert_eq!(a * (b + c), a * b + a * c);
    assert_eq!(a * b, b * a);
    assert_eq!(a * BinaryField128b::one(), a);
    assert_eq!(a + a, BinaryField128b::zero());
}

#[test]
fn bits_survive_the_round_trip() {
    for v in [0u128, 1, 0x2d, 1 << 127, 0x0123456789abcdef_fedcba9876543210] {
        assert_eq!(BinaryField128b::new(v).to_bits(), v);
    }
    assert_eq!(BinaryField8b::from_bits(0x1ff), BinaryField8b::new(0xff));
    assert_eq!(BinaryField8b::width(), 8);
}

#[test]
fn subfields_keep_their_arithmetic() {
    let a = BinaryField8b::new(0xb7);
    let b = BinaryField8b::new(0x1e);
    assert_eq!(BinaryField128b::from(a) * BinaryField128b::from(b), BinaryField128b::from(a * b));
    assert_eq!(BinaryField128b::from(a), BinaryField128b::new(0xb7));
    assert_eq!(BinaryField8b::try_from(BinaryField128b::new(0xb7)), Ok(a));
    assert!(BinaryField8b::try_from(BinaryField128b::new(0x100)).is_err());
    assert!(BinaryField1b::try_from(BinaryField128b::new(2)).is_err());
    assert_eq!(Extension::embed(a).project(), Some(a));
}

#[test]
fn elements_as_text() {
    assert_eq!(BinaryField1b::zero().text(), "0x0");
    assert_eq!(BinaryField8b::new(0xf0).text(), "0xf0");
    assert_eq!(
        BinaryField128b::new(0x0123456789abcdef_fedcba9876543210).text(),
        "0x0123456789abcdeffedcba9876543210"
    );
}

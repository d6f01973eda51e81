//! Expressions as text.
use vstd::prelude::*;
use vstd::string::StringExecFns;

use crate::expr::ArithExpr;
use crate::field::Field;
use crate::tower;
use crate::tower::{BinaryField128b, BinaryField1b, BinaryField8b, BinaryTower};

verus! {

/// A field whose elements can be written as text.
pub trait FieldText: Field {
    spec fn spec_text(self) -> Seq<char>;

    /// The text of an element cannot be taken for that of a variable, an operation or more than
    /// one element.
    proof fn law_text_is_word(self)
        ensures
            self.spec_text().len() > 0,
            self.spec_text()[0] != '(',
            self.spec_text()[0] != 'x',
            is_unbroken(self.spec_text()),
    ;

    /// Different elements have different texts.
    proof fn law_text_determines_element(self, other: Self)
        requires
            self.spec_text() == other.spec_text(),
        ensures
            self == other,
    ;

    fn text(self) -> (r: String)
        ensures
            r@ == self.spec_text(),
    ;
}

/// Whether no space and no closing parenthesis stands in a text.
pub open spec fn is_unbroken(text: Seq<char>) -> bool {
    forall|i: int| 0 <= i < text.len() ==> #[trigger] text[i] != ' ' && text[i] != ')'
}

/// The number that a digit stands for, up to `f` for fifteen.
pub open spec fn digit_value(c: char) -> int {
    if '0' <= c && c <= '9' {
        c as int - '0' as int
    } else {
        c as int - 'a' as int + 10
    }
}

/// The number that digits stand for in notation to the base `base`.
pub open spec fn number_value(digits: Seq<char>, base: int) -> int
    decreases digits.len(),
{
    if digits.len() == 0 {
        0
    } else {
        number_value(digits.drop_last(), base) * base + digit_value(digits.last())
    }
}

/// The digits are `0` to `9` and `a` to `f`.
pub proof fn law_digit_char(d: nat)
    requires
        d < 16,
    ensures
        digit_value(digit_char(d)) == d,
        d < 10 ==> '0' <= digit_char(d) && digit_char(d) <= '9',
        d >= 10 ==> 'a' <= digit_char(d) && digit_char(d) <= 'f',
{
}

pub open spec fn digit_char(d: nat) -> char {
    if d == 0 {
        '0'
    } else if d == 1 {
        '1'
    } else if d == 2 {
        '2'
    } else if d == 3 {
        '3'
    } else if d == 4 {
        '4'
    } else if d == 5 {
        '5'
    } else if d == 6 {
        '6'
    } else if d == 7 {
        '7'
    } else if d == 8 {
        '8'
    } else if d == 9 {
        '9'
    } else if d == 10 {
        'a'
    } else if d == 11 {
        'b'
    } else if d == 12 {
        'c'
    } else if d == 13 {
        'd'
    } else if d == 14 {
        'e'
    } else {
        'f'
    }
}

/// `n` in decimal notation.
pub open spec fn decimal(n: nat) -> Seq<char>
    decreases n,
{
    if n < 10 {
        seq![digit_char(n)]
    } else {
        decimal(n / 10).push(digit_char(n % 10))
    }
}

/// The lowest `digits` digits of `n` in hexadecimal notation.
pub open spec fn hexadecimal(n: nat, digits: nat) -> Seq<char>
    decreases digits,
{
    if digits == 0 {
        Seq::empty()
    } else {
        hexadecimal(n / 16, (digits - 1) as nat).push(digit_char(n % 16))
    }
}

/// Decimal notation can be read back. It has the digits `0` to `9` only, and the first of them is
/// `0` only for the number zero.
pub proof fn law_decimal(n: nat)
    ensures
        number_value(decimal(n), 10) == n,
        decimal(n).len() > 0,
        decimal(n)[0] == '0' ==> n == 0 && decimal(n).len() == 1,
        forall|i: int|
            0 <= i < decimal(n).len() ==> '0' <= #[trigger] decimal(n)[i] && decimal(n)[i] <= '9',
        is_unbroken(decimal(n)),
    decreases n,
{
    reveal_with_fuel(number_value, 2);
    if n < 10 {
        law_digit_char(n);
        assert(decimal(n).drop_last() =~= Seq::<char>::empty());
    } else {
        law_decimal(n / 10);
        law_digit_char(n % 10);
        assert(decimal(n).drop_last() =~= decimal(n / 10));
        assert(number_value(decimal(n), 10) == number_value(decimal(n / 10), 10) * 10 + n % 10);
    }
}

/// Hexadecimal notation of a number that needs no more than the given digits can be read back.
/// It has that many digits, `0` to `9` and `a` to `f` only.
pub proof fn law_hexadecimal(n: nat, digits: nat)
    ensures
        n < vstd::arithmetic::power::pow(16, digits) ==> number_value(hexadecimal(n, digits), 16)
            == n,
        hexadecimal(n, digits).len() == digits,
        forall|i: int|
            0 <= i < digits ==> {
                let c = #[trigger] hexadecimal(n, digits)[i];
                ('0' <= c && c <= '9') || ('a' <= c && c <= 'f')
            },
        is_unbroken(hexadecimal(n, digits)),
    decreases digits,
{
    reveal(vstd::arithmetic::power::pow);
    if digits > 0 {
        let fewer = (digits - 1) as nat;
        law_hexadecimal(n / 16, fewer);
        law_digit_char(n % 16);
        assert(hexadecimal(n, digits).drop_last() =~= hexadecimal(n / 16, fewer));
        assert(number_value(hexadecimal(n, digits), 16) == number_value(
            hexadecimal(n / 16, fewer),
            16,
        ) * 16 + n % 16);
    }
}

/// Numbers that both fit are the same where their hexadecimal notations are.
proof fn lemma_hexadecimal_is_injective(m: nat, n: nat, digits: nat)
    requires
        "0x"@ + hexadecimal(m, digits) == "0x"@ + hexadecimal(n, digits),
        m < vstd::arithmetic::power::pow(16, digits),
        n < vstd::arithmetic::power::pow(16, digits),
    ensures
        m == n,
{
    law_hexadecimal(m, digits);
    law_hexadecimal(n, digits);
    let prefix = "0x"@;
    assert((prefix + hexadecimal(m, digits)).skip(prefix.len() as int) =~= hexadecimal(m, digits));
    assert((prefix + hexadecimal(n, digits)).skip(prefix.len() as int) =~= hexadecimal(n, digits));
}

proof fn lemma_bits_text_is_word(n: nat, digits: nat)
    ensures
        ("0x"@ + hexadecimal(n, digits)).len() == digits + 2,
        ("0x"@ + hexadecimal(n, digits))[0] == '0',
        is_unbroken("0x"@ + hexadecimal(n, digits)),
{
    reveal_strlit("0x");
    law_hexadecimal(n, digits);
    let text = "0x"@ + hexadecimal(n, digits);
    assert forall|i: int| 0 <= i < text.len() implies #[trigger] text[i] != ' ' && text[i]
        != ')' by {
        if i >= 2 {
            assert(text[i] == hexadecimal(n, digits)[i - 2]);
        }
    }
}

proof fn lemma_powers_of_sixteen()
    ensures
        vstd::arithmetic::power::pow(16, 1) == 0x10,
        vstd::arithmetic::power::pow(16, 2) == 0x100,
        vstd::arithmetic::power::pow(16, 32) == 0x1_0000_0000_0000_0000_0000_0000_0000_0000,
{
    reveal(vstd::arithmetic::power::pow);
    vstd::arithmetic::power::lemma_pow1(16);
    vstd::arithmetic::power::lemma_pow_adds(16, 1, 1);
    vstd::arithmetic::power::lemma_pow_adds(16, 2, 2);
    vstd::arithmetic::power::lemma_pow_adds(16, 4, 4);
    vstd::arithmetic::power::lemma_pow_adds(16, 8, 8);
    vstd::arithmetic::power::lemma_pow_adds(16, 16, 16);
    assert(0x100 * 0x100 == 0x1_0000) by (nonlinear_arith);
    assert(0x1_0000 * 0x1_0000 == 0x1_0000_0000) by (nonlinear_arith);
    assert(0x1_0000_0000 * 0x1_0000_0000 == 0x1_0000_0000_0000_0000) by (nonlinear_arith);
    assert(0x1_0000_0000_0000_0000 * 0x1_0000_0000_0000_0000
        == 0x1_0000_0000_0000_0000_0000_0000_0000_0000) by (nonlinear_arith);
    assert(vstd::arithmetic::power::pow(16, 4) == 0x1_0000);
    assert(vstd::arithmetic::power::pow(16, 8) == 0x1_0000_0000);
    assert(vstd::arithmetic::power::pow(16, 16) == 0x1_0000_0000_0000_0000);
}

pub proof fn lemma_bits_text_reads_back(bits: u128, digits: nat)
    requires
        (digits == 1 && bits < 0x10) || (digits == 2 && bits < 0x100) || digits == 32,
    ensures
        ("0x"@ + hexadecimal(bits as nat, digits)).len() == digits + 2,
        ("0x"@ + hexadecimal(bits as nat, digits)).take(2) == seq!['0', 'x'],
        number_value(("0x"@ + hexadecimal(bits as nat, digits)).skip(2), 16) == bits,
{
    reveal_strlit("0x");
    lemma_powers_of_sixteen();
    law_hexadecimal(bits as nat, digits);
    let text = "0x"@ + hexadecimal(bits as nat, digits);
    assert(text.take(2) =~= seq!['0', 'x']);
    assert(text.skip(2) =~= hexadecimal(bits as nat, digits));
}

fn digit_text(d: u64) -> (r: &'static str)
    requires
        d < 16,
    ensures
        r@ == seq![digit_char(d as nat)],
{
    let r: &'static str = match d {
        0 => "0",
        1 => "1",
        2 => "2",
        3 => "3",
        4 => "4",
        5 => "5",
        6 => "6",
        7 => "7",
        8 => "8",
        9 => "9",
        10 => "a",
        11 => "b",
        12 => "c",
        13 => "d",
        14 => "e",
        _ => "f",
    };
    proof {
        reveal_strlit("0");
        reveal_strlit("1");
        reveal_strlit("2");
        reveal_strlit("3");
        reveal_strlit("4");
        reveal_strlit("5");
        reveal_strlit("6");
        reveal_strlit("7");
        reveal_strlit("8");
        reveal_strlit("9");
        reveal_strlit("a");
        reveal_strlit("b");
        reveal_strlit("c");
        reveal_strlit("d");
        reveal_strlit("e");
        reveal_strlit("f");
        assert(r@ =~= seq![digit_char(d as nat)]);
    }
    r
}

fn decimal_text(n: u64) -> (r: String)
    ensures
        r@ == decimal(n as nat),
    decreases n,
{
    if n < 10 {
        digit_text(n).to_owned()
    } else {
        let mut r: String = decimal_text(n / 10);
        r.append(digit_text(n % 10));
        assert(r@ =~= decimal(n as nat));
        r
    }
}

fn hexadecimal_text(n: u128, digits: u32) -> (r: String)
    ensures
        r@ == hexadecimal(n as nat, digits as nat),
    decreases digits,
{
    if digits == 0 {
        let r: String = String::new();
        assert(r@ =~= Seq::<char>::empty());
        r
    } else {
        let mut r: String = hexadecimal_text(n / 16, digits - 1);
        r.append(digit_text((n % 16) as u64));
        assert(r@ =~= hexadecimal(n as nat, digits as nat));
        r
    }
}

/// The bits in hexadecimal notation, `digits` digits behind `0x`.
fn bits_text(bits: u128, digits: u32) -> (r: String)
    ensures
        r@ == "0x"@ + hexadecimal(bits as nat, digits as nat),
{
    let mut r: String = "0x".to_owned();
    r.append(hexadecimal_text(bits, digits).as_str());
    r
}

impl FieldText for BinaryField1b {
    open spec fn spec_text(self) -> Seq<char> {
        "0x"@ + hexadecimal(self.spec_to_bits() as nat, 1)
    }

    proof fn law_text_is_word(self) {
        lemma_bits_text_is_word(self.spec_to_bits() as nat, 1);
    }

    proof fn law_text_determines_element(self, other: Self) {
        lemma_powers_of_sixteen();
        lemma_hexadecimal_is_injective(
            self.spec_to_bits() as nat,
            other.spec_to_bits() as nat,
            1,
        );
        self.law_bits_give_element();
        other.law_bits_give_element();
    }

    fn text(self) -> String {
        bits_text(self.to_bits(), 1)
    }
}

impl BinaryField8b {
    pub proof fn lemma_bits_fit_a_byte(self)
        ensures
            self.spec_to_bits() < 0x100,
    {
        let bits = self.spec_to_bits();
        self.law_bits_give_element();
        Self::law_element_gives_bits(bits);
        assert(bits & tower::low_bits(8) < 0x100) by (bit_vector);
    }
}

impl FieldText for BinaryField8b {
    open spec fn spec_text(self) -> Seq<char> {
        "0x"@ + hexadecimal(self.spec_to_bits() as nat, 2)
    }

    proof fn law_text_is_word(self) {
        lemma_bits_text_is_word(self.spec_to_bits() as nat, 2);
    }

    proof fn law_text_determines_element(self, other: Self) {
        lemma_powers_of_sixteen();
        self.lemma_bits_fit_a_byte();
        other.lemma_bits_fit_a_byte();
        lemma_hexadecimal_is_injective(
            self.spec_to_bits() as nat,
            other.spec_to_bits() as nat,
            2,
        );
        self.law_bits_give_element();
        other.law_bits_give_element();
    }

    fn text(self) -> String {
        bits_text(self.to_bits(), 2)
    }
}

impl FieldText for BinaryField128b {
    open spec fn spec_text(self) -> Seq<char> {
        "0x"@ + hexadecimal(self.spec_to_bits() as nat, 32)
    }

    proof fn law_text_is_word(self) {
        lemma_bits_text_is_word(self.spec_to_bits() as nat, 32);
    }

    proof fn law_text_determines_element(self, other: Self) {
        lemma_powers_of_sixteen();
        lemma_hexadecimal_is_injective(
            self.spec_to_bits() as nat,
            other.spec_to_bits() as nat,
            32,
        );
        self.law_bits_give_element();
        other.law_bits_give_element();
    }

    fn text(self) -> String {
        bits_text(self.to_bits(), 32)
    }
}

impl<F: FieldText> ArithExpr<F> {
    /// The expression as text: `x0`, `(x0 + x1)`, `(x0 * x1)`, `(x0)^2`.
    pub open spec fn spec_text(self) -> Seq<char>
        decreases self,
    {
        match self {
            ArithExpr::Const(value) => value.spec_text(),
            ArithExpr::Var(index) => "x"@ + decimal(index as nat),
            ArithExpr::Add(left, right) => "("@ + left.spec_text() + " + "@ + right.spec_text()
                + ")"@,
            ArithExpr::Mul(left, right) => "("@ + left.spec_text() + " * "@ + right.spec_text()
                + ")"@,
            ArithExpr::Pow(base, exp) => "("@ + base.spec_text() + ")^"@ + decimal(exp as nat),
        }
    }

    pub fn to_string(&self) -> (r: String)
        ensures
            r@ == self.spec_text(),
        decreases self,
    {
        match self {
            ArithExpr::Const(value) => value.text(),
            ArithExpr::Var(index) => {
                let mut r: String = "x".to_owned();
                r.append(decimal_text(*index as u64).as_str());
                r
            },
            ArithExpr::Add(left, right) => {
                let mut r: String = "(".to_owned();
                r.append(left.to_string().as_str());
                r.append(" + ");
                r.append(right.to_string().as_str());
                r.append(")");
                r
            },
            ArithExpr::Mul(left, right) => {
                let mut r: String = "(".to_owned();
                r.append(left.to_string().as_str());
                r.append(" * ");
                r.append(right.to_string().as_str());
                r.append(")");
                r
            },
            ArithExpr::Pow(base, exp) => {
                let mut r: String = "(".to_owned();
                r.append(base.to_string().as_str());
                r.append(")^");
                r.append(decimal_text(*exp).as_str());
                r
            },
        }
    }
}

} // verus!

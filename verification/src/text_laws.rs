//! What the text of an expression tells of the expression.
use vstd::prelude::*;

use crate::expr::ArithExpr;
use crate::text;
use crate::text::FieldText;
use crate::tower::{BinaryField128b, BinaryField1b, BinaryField8b, BinaryTower};

verus! {

/// Whether a text is empty or starts with a space or a closing parenthesis, as what stands behind
/// an operand does.
pub open spec fn ends_operand(rest: Seq<char>) -> bool {
    rest.len() == 0 || rest[0] == ' ' || rest[0] == ')'
}

proof fn lemma_prefixes_agree(p: Seq<char>, q: Seq<char>, s: Seq<char>, t: Seq<char>)
    requires
        p.len() == q.len(),
        p + s == q + t,
    ensures
        p == q,
        s == t,
{
    let n = p.len() as int;
    assert((p + s).take(n) =~= p);
    assert((q + t).take(n) =~= q);
    assert((p + s).skip(n) =~= s);
    assert((q + t).skip(n) =~= t);
}

proof fn lemma_words_agree(a: Seq<char>, b: Seq<char>, s: Seq<char>, t: Seq<char>)
    requires
        text::is_unbroken(a),
        text::is_unbroken(b),
        ends_operand(s),
        ends_operand(t),
        a + s == b + t,
    ensures
        a == b,
        s == t,
{
    let whole = a + s;
    assert(whole.len() == a.len() + s.len());
    assert(whole.len() == b.len() + t.len());
    if a.len() < b.len() {
        assert(whole[a.len() as int] == s[0]);
        assert(whole[a.len() as int] == b[a.len() as int]);
    } else if b.len() < a.len() {
        assert(whole[b.len() as int] == t[0]);
        assert(whole[b.len() as int] == a[b.len() as int]);
    }
    lemma_prefixes_agree(a, b, s, t);
}

/// The text of an operation, cut behind its first operand.
proof fn lemma_text_of_operation<F: FieldText>(
    first: ArithExpr<F>,
    second: ArithExpr<F>,
    exp: u64,
    s: Seq<char>,
)
    ensures
        ArithExpr::Add(Box::new(first), Box::new(second)).spec_text() + s == "("@ + (
        first.spec_text() + (" + "@ + (second.spec_text() + (")"@ + s)))),
        ArithExpr::Mul(Box::new(first), Box::new(second)).spec_text() + s == "("@ + (
        first.spec_text() + (" * "@ + (second.spec_text() + (")"@ + s)))),
        ArithExpr::Pow(Box::new(first), exp).spec_text() + s == "("@ + (first.spec_text() + (")^"@ + (
        text::decimal(exp as nat) + s))),
{
    assert(ArithExpr::Add(Box::new(first), Box::new(second)).spec_text() + s =~= "("@ + (
    first.spec_text() + (" + "@ + (second.spec_text() + (")"@ + s)))));
    assert(ArithExpr::Mul(Box::new(first), Box::new(second)).spec_text() + s =~= "("@ + (
    first.spec_text() + (" * "@ + (second.spec_text() + (")"@ + s)))));
    assert(ArithExpr::Pow(Box::new(first), exp).spec_text() + s =~= "("@ + (first.spec_text() + (
    ")^"@ + (text::decimal(exp as nat) + s))));
}

proof fn lemma_first_character<F: FieldText>(e: ArithExpr<F>)
    ensures
        e.spec_text().len() > 0,
        e is Const ==> e.spec_text()[0] != '(' && e.spec_text()[0] != 'x',
        e is Var ==> e.spec_text()[0] == 'x',
        e is Add || e is Mul || e is Pow ==> e.spec_text()[0] == '(',
{
    reveal_strlit("(");
    reveal_strlit("x");
    if let ArithExpr::Const(value) = e {
        value.law_text_is_word();
    }
}

/// What stands behind the first operand of an operation, and then `s`.
spec fn behind_first<F: FieldText>(e: ArithExpr<F>, s: Seq<char>) -> Seq<char> {
    match e {
        ArithExpr::Add(_, right) => " + "@ + (right.spec_text() + (")"@ + s)),
        ArithExpr::Mul(_, right) => " * "@ + (right.spec_text() + (")"@ + s)),
        ArithExpr::Pow(_, exp) => ")^"@ + (text::decimal(exp as nat) + s),
        _ => s,
    }
}

proof fn lemma_behind_first<F: FieldText>(e: ArithExpr<F>, s: Seq<char>)
    ensures
        ends_operand(s) ==> ends_operand(behind_first(e, s)),
        e is Add ==> behind_first(e, s).len() > 1 && behind_first(e, s)[0] == ' ' && behind_first(
            e,
            s,
        )[1] == '+',
        e is Mul ==> behind_first(e, s).len() > 1 && behind_first(e, s)[0] == ' ' && behind_first(
            e,
            s,
        )[1] == '*',
        e is Pow ==> behind_first(e, s).len() > 1 && behind_first(e, s)[0] == ')' && behind_first(
            e,
            s,
        )[1] == '^',
{
    reveal_strlit(" + ");
    reveal_strlit(" * ");
    reveal_strlit(")^");
}

proof fn lemma_same_leaf<F: FieldText>(
    a: ArithExpr<F>,
    b: ArithExpr<F>,
    s: Seq<char>,
    t: Seq<char>,
)
    requires
        (a is Const && b is Const) || (a is Var && b is Var),
        ends_operand(s),
        ends_operand(t),
        a.spec_text() + s == b.spec_text() + t,
    ensures
        a == b,
        s == t,
{
    match (a, b) {
        (ArithExpr::Const(v), ArithExpr::Const(w)) => {
            v.law_text_is_word();
            w.law_text_is_word();
            lemma_words_agree(v.spec_text(), w.spec_text(), s, t);
            v.law_text_determines_element(w);
        },
        (ArithExpr::Var(i), ArithExpr::Var(j)) => {
            let m = text::decimal(i as nat);
            let n = text::decimal(j as nat);
            text::law_decimal(i as nat);
            text::law_decimal(j as nat);
            assert("x"@ + m + s =~= "x"@ + (m + s));
            assert("x"@ + n + t =~= "x"@ + (n + t));
            lemma_prefixes_agree("x"@, "x"@, m + s, n + t);
            lemma_words_agree(m, n, s, t);
        },
        _ => {},
    }
}

/// Texts of expressions are read in one way only: where two texts agree as far as the operand of
/// each goes, and beyond, the operands are the same expression and the rests are the same.
pub proof fn law_text_is_read_in_one_way<F: FieldText>(
    a: ArithExpr<F>,
    b: ArithExpr<F>,
    s: Seq<char>,
    t: Seq<char>,
)
    requires
        ends_operand(s),
        ends_operand(t),
        a.spec_text() + s == b.spec_text() + t,
    ensures
        a == b,
        s == t,
    decreases a,
{
    lemma_first_character(a);
    lemma_first_character(b);
    assert((a.spec_text() + s)[0] == a.spec_text()[0]);
    assert((b.spec_text() + t)[0] == b.spec_text()[0]);
    if a is Const || a is Var {
        lemma_same_leaf(a, b, s, t);
    } else {
        let a1 = lemma_operation_splits(a, s);
        let b1 = lemma_operation_splits(b, t);
        lemma_prefixes_agree(
            "("@,
            "("@,
            a1.spec_text() + behind_first(a, s),
            b1.spec_text() + behind_first(b, t),
        );
        lemma_behind_first(a, s);
        lemma_behind_first(b, t);
        law_text_is_read_in_one_way(a1, b1, behind_first(a, s), behind_first(b, t));
        match (a, b) {
            (ArithExpr::Add(_, a2), ArithExpr::Add(_, b2)) => {
                let x = ")"@ + s;
                let y = ")"@ + t;
                reveal_strlit(")");
                lemma_prefixes_agree(" + "@, " + "@, a2.spec_text() + x, b2.spec_text() + y);
                law_text_is_read_in_one_way(*a2, *b2, x, y);
                lemma_prefixes_agree(")"@, ")"@, s, t);
            },
            (ArithExpr::Mul(_, a2), ArithExpr::Mul(_, b2)) => {
                let x = ")"@ + s;
                let y = ")"@ + t;
                reveal_strlit(")");
                lemma_prefixes_agree(" * "@, " * "@, a2.spec_text() + x, b2.spec_text() + y);
                law_text_is_read_in_one_way(*a2, *b2, x, y);
                lemma_prefixes_agree(")"@, ")"@, s, t);
            },
            (ArithExpr::Pow(_, m), ArithExpr::Pow(_, n)) => {
                let x = text::decimal(m as nat);
                let y = text::decimal(n as nat);
                text::law_decimal(m as nat);
                text::law_decimal(n as nat);
                lemma_prefixes_agree(")^"@, ")^"@, x + s, y + t);
                lemma_words_agree(x, y, s, t);
            },
            _ => {},
        }
    }
}

proof fn lemma_operation_splits<F: FieldText>(e: ArithExpr<F>, s: Seq<char>) -> (first: ArithExpr<
    F,
>)
    requires
        e is Add || e is Mul || e is Pow,
    ensures
        e.spec_text() + s == "("@ + (first.spec_text() + behind_first(e, s)),
        match e {
            ArithExpr::Add(left, _) => first == *left,
            ArithExpr::Mul(left, _) => first == *left,
            ArithExpr::Pow(base, _) => first == *base,
            _ => false,
        },
{
    match e {
        ArithExpr::Add(left, right) => {
            lemma_text_of_operation(*left, *right, 0, s);
            *left
        },
        ArithExpr::Mul(left, right) => {
            lemma_text_of_operation(*left, *right, 0, s);
            *left
        },
        ArithExpr::Pow(base, exp) => {
            lemma_text_of_operation(*base, *base, exp, s);
            *base
        },
        _ => e,
    }
}

/// The text determines the expression: different expressions have different texts.
pub proof fn law_text_determines_expression<F: FieldText>(a: ArithExpr<F>, b: ArithExpr<F>)
    requires
        a.spec_text() == b.spec_text(),
    ensures
        a == b,
{
    let none = Seq::<char>::empty();
    assert(a.spec_text() + none =~= a.spec_text());
    assert(b.spec_text() + none =~= b.spec_text());
    law_text_is_read_in_one_way(a, b, none, none);
}

/// The text of an operation is an opening parenthesis, the whole text of the first operand, the
/// sign of the operation, the whole text of the second operand or the exponent and, but for a
/// power, a closing parenthesis.
pub proof fn law_text_of_operation<F: FieldText>(
    a: ArithExpr<F>,
    b: ArithExpr<F>,
    exp: u64,
    index: usize,
    value: F,
)
    ensures
        ArithExpr::Const(value).spec_text() == value.spec_text(),
        ArithExpr::<F>::Var(index).spec_text() == seq!['x'] + text::decimal(index as nat),
        ArithExpr::Add(Box::new(a), Box::new(b)).spec_text() == seq!['('] + a.spec_text() + seq![
            ' ',
            '+',
            ' ',
        ] + b.spec_text() + seq![')'],
        ArithExpr::Mul(Box::new(a), Box::new(b)).spec_text() == seq!['('] + a.spec_text() + seq![
            ' ',
            '*',
            ' ',
        ] + b.spec_text() + seq![')'],
        ArithExpr::Pow(Box::new(a), exp).spec_text() == seq!['('] + a.spec_text() + seq![')', '^']
            + text::decimal(exp as nat),
{
    reveal_strlit("x");
    reveal_strlit("(");
    reveal_strlit(" + ");
    reveal_strlit(" * ");
    reveal_strlit(")");
    reveal_strlit(")^");
    assert("x"@ =~= seq!['x']);
    assert("("@ =~= seq!['(']);
    assert(" + "@ =~= seq![' ', '+', ' ']);
    assert(" * "@ =~= seq![' ', '*', ' ']);
    assert(")"@ =~= seq![')']);
    assert(")^"@ =~= seq![')', '^']);
}

/// The text of an element is `0x` and its word in hexadecimal digits, as many as its field needs:
/// one for a bit, two for eight bits, thirty-two for 128 bits.
pub proof fn law_text_of_element(a: BinaryField1b, b: BinaryField8b, c: BinaryField128b)
    ensures
        a.spec_text().len() == 3,
        b.spec_text().len() == 4,
        c.spec_text().len() == 34,
        a.spec_text().take(2) == seq!['0', 'x'],
        b.spec_text().take(2) == seq!['0', 'x'],
        c.spec_text().take(2) == seq!['0', 'x'],
        text::number_value(a.spec_text().skip(2), 16) == a.spec_to_bits(),
        text::number_value(b.spec_text().skip(2), 16) == b.spec_to_bits(),
        text::number_value(c.spec_text().skip(2), 16) == c.spec_to_bits(),
{
    text::lemma_bits_text_reads_back(a.spec_to_bits(), 1);
    b.lemma_bits_fit_a_byte();
    text::lemma_bits_text_reads_back(b.spec_to_bits(), 2);
    text::lemma_bits_text_reads_back(c.spec_to_bits(), 32);
}

} // verus!

use arith_expr::ArithExpr::{Const, Var};
use arith_expr::{ArithExpr, BinaryField8b, Dual, Error, Field, LinearNormalForm};

type F = BinaryField8b;

fn num(v: u8) -> ArithExpr<F> {
    Const(F::new(v))
}

fn elements(values: &[u8]) -> Vec<F> {
    values.iter().map(|v| F::new(*v)).collect()
}

fn dual(real: u8, derivs: &[u8]) -> Dual<F> {
    Dual { real: F::new(real), derivs: elements(derivs) }
}

fn form(constant: u8, var_coeffs: &[u8]) -> LinearNormalForm<F> {
    LinearNormalForm { constant: F::new(constant), var_coeffs: elements(var_coeffs) }
}

/// The value of `form` where variable `i` is `point[i]`.
fn form_value(form: &LinearNormalForm<F>, point: &[u8]) -> F {
    let mut sum = form.constant;
    for (c, x) in form.var_coeffs.iter().zip(point) {
        sum = sum + *c * F::new(*x);
    }
    sum
}

fn value(expr: &ArithExpr<F>, point: &[u8]) -> F {
    let mut closed = expr.clone();
    for (i, v) in point.iter().enumerate() {
        closed = closed.const_subst(i, F::new(*v));
    }
    closed.optimize().constant().unwrap()
}

#[test]
fn dual_constants_and_variables() {
    let c = Dual::constant(F::new(9), 3);
    assert_eq!(c.real, F::new(9));
    assert_eq!(c.derivs, elements(&[0, 0, 0]));
    assert!(c.derivs_constant());
    let x = Dual::<F>::variable(1, 3);
    assert_eq!(x.real, F::zero());
    assert_eq!(x.derivs, elements(&[0, 1, 0]));
    assert!(!x.derivs_constant());
    let plain: Dual<F> = Dual::from(F::new(4));
    assert_eq!(plain.real, F::new(4));
    assert!(plain.derivs.is_empty());
}

#[test]
fn dual_powers() {
    let zeroth = dual(7, &[1, 2]).pow_uint(0).unwrap();
    assert_eq!((zeroth.real, zeroth.derivs), (F::one(), elements(&[0, 0])));
    let first = dual(7, &[1, 2]).pow_uint(1).unwrap();
    assert_eq!((first.real, first.derivs), (F::new(7), elements(&[1, 2])));
    let square = dual(7, &[0, 0]).pow_uint(2).unwrap();
    assert_eq!((square.real, square.derivs), (F::new(7) * F::new(7), elements(&[0, 0])));
    assert!(matches!(dual(7, &[0, 2]).pow_uint(2), Err(Error::NonLinearExpression)));
}

#[test]
fn dual_products() {
    let left = dual(3, &[0, 0]).checked_mul(dual(5, &[1, 2])).unwrap();
    assert_eq!((left.real, left.derivs), (F::new(15), elements(&[3, 1])));
    let right = dual(5, &[1, 2]).checked_mul(dual(3, &[])).unwrap();
    assert_eq!((right.real, right.derivs), (F::new(15), elements(&[3, 1])));
    let both = dual(5, &[0, 0, 0]).checked_mul(dual(3, &[0])).unwrap();
    assert_eq!((both.real, both.derivs), (F::new(15), elements(&[0, 0, 0])));
    let none = dual(5, &[1]).checked_mul(dual(3, &[1]));
    assert!(matches!(none, Err(Error::NonLinearExpression)));
}

#[test]
fn dual_sums_keep_the_common_derivatives() {
    let sum = dual(3, &[1, 2, 4]) + dual(5, &[7, 7]);
    assert_eq!((sum.real, sum.derivs), (F::new(6), elements(&[6, 5])));
}

#[test]
fn dual_becomes_a_normal_form() {
    let normal: LinearNormalForm<F> = LinearNormalForm::from(dual(3, &[1, 2]));
    assert_eq!(normal, form(3, &[1, 2]));
}

#[test]
fn normal_form_constructors() {
    assert_eq!(LinearNormalForm::new(F::new(3)), form(3, &[]));
    assert_eq!(LinearNormalForm::constant(F::new(3), 2), form(3, &[0, 0]));
    assert_eq!(LinearNormalForm::<F>::default(), form(0, &[]));
    assert!(form(3, &[0, 0]).coeffs_constant());
    assert!(!form(3, &[0, 1]).coeffs_constant());
    assert_eq!(form(3, &[0, 1]).clone(), form(3, &[0, 1]));
}

#[test]
fn normal_form_sums_keep_all_variables() {
    assert_eq!(form(3, &[1, 2, 4]) + form(5, &[7, 7]), form(6, &[6, 5, 4]));
    assert_eq!(form(3, &[]) + form(5, &[7, 7]), form(6, &[7, 7]));
}

#[test]
fn normal_form_products_and_powers() {
    assert_eq!(form(3, &[0]) * form(5, &[1, 2]), Ok(form(15, &[3, 1])));
    assert_eq!(form(5, &[1, 2]) * form(3, &[]), Ok(form(15, &[3, 1])));
    assert_eq!(form(5, &[]) * form(3, &[0, 0]), Ok(form(15, &[])));
    assert_eq!(form(5, &[1]) * form(3, &[0, 1]), Err(Error::NonLinearExpression));
    assert_eq!(form(5, &[1]).pow(0), Ok(form(1, &[0])));
    assert_eq!(form(5, &[1]).pow(1), Ok(form(5, &[1])));
    assert_eq!(form(2, &[0]).pow(2), Ok(form(3, &[0])));
    assert_eq!(form(5, &[1]).pow(2), Err(Error::NonLinearExpression));
}

#[test]
fn linear_normal_form_has_the_values_of_the_expression() {
    let expr = num(7) * (Var(2) + num(3) * Var(0)) + Var(1).pow(1) + num(2).pow(3);
    let normal = expr.linear_normal_form().unwrap();
    for p in [[0, 0, 0], [1, 0, 0], [0, 1, 0], [5, 77, 255]] {
        assert_eq!(form_value(&normal, &p), value(&expr, &p));
    }
}

#[test]
fn linear_normal_form_exists_exactly_up_to_degree_one() {
    let linear: ArithExpr<F> = Var(0).pow(0) * Var(3) + num(0);
    assert_eq!(linear.degree(), 1);
    assert!(linear.linear_normal_form().is_ok());

    let power_zero: ArithExpr<F> = (Var(0) * Var(1)).pow(0);
    assert_eq!(power_zero.degree(), 0);
    assert_eq!(power_zero.linear_normal_form(), Ok(form(1, &[0, 0])));

    let square: ArithExpr<F> = num(0) * Var(0).pow(2);
    assert_eq!(square.degree(), 2);
    assert_eq!(square.linear_normal_form(), Err(Error::NonLinearExpression));
}

#[test]
fn both_ways_to_a_normal_form_agree() {
    let expr = num(7) * (Var(2) + num(3) * Var(0)) + num(9);
    let direct = expr.linear_normal_form().unwrap();
    let dual = expr.to_linear_via_dual().unwrap();
    assert_eq!(direct, dual);
    assert_eq!(dual.var_coeffs.len(), expr.n_vars());
    assert_eq!(dual, form(9, &[14, 0, 7]));
}

#[test]
fn dual_evaluation_composes() {
    let expr = num(3) * Var(0) + Var(1) + num(1);
    // x0 = 2 + x1, x1 = 5 x0
    let vars = [dual(2, &[0, 1]), dual(0, &[5, 0])];
    let out = expr.evaluate_dual(&vars).unwrap();
    assert_eq!(out.real, F::new(3) * F::new(2) + F::new(1));
    assert_eq!(out.derivs, elements(&[5, 3]));
}

#[test]
fn dual_evaluation_detects_non_linearity() {
    let expr: ArithExpr<F> = Var(0) * Var(1);
    assert_eq!(expr.to_linear_via_dual(), Err(Error::NonLinearExpression));
    let expr: ArithExpr<F> = (Var(0) + num(1)).pow(2);
    assert_eq!(expr.to_linear_via_dual(), Err(Error::NonLinearExpression));
    let expr: ArithExpr<F> = (Var(0) * Var(1)).pow(0);
    assert_eq!(expr.to_linear_via_dual(), Err(Error::NonLinearExpression));
    // the first factor has no derivative left
    let expr: ArithExpr<F> = (num(0) * Var(0)) * Var(1);
    assert_eq!(expr.to_linear_via_dual(), Ok(form(0, &[0, 0])));
    // the second summand is never reached
    let expr: ArithExpr<F> = Var(0) * Var(0) + Var(9);
    let vars = [dual(0, &[1])];
    assert!(matches!(expr.evaluate_dual(&vars), Err(Error::NonLinearExpression)));
}

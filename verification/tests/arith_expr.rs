use arith_expr::ArithExpr::{Const, Var};
use arith_expr::{ArithExpr, BinaryField128b, BinaryField1b, BinaryField8b, Error, Field};

#[test]
fn test_degree_with_pow() {
    let expr = ArithExpr::Const(BinaryField8b::new(6)).pow(7);
    assert_eq!(expr.degree(), 0);

    let expr: ArithExpr<BinaryField8b> = ArithExpr::Var(0).pow(7);
    assert_eq!(expr.degree(), 7);

    let expr: ArithExpr<BinaryField8b> = (ArithExpr::Var(0) * ArithExpr::Var(1)).pow(7);
    assert_eq!(expr.degree(), 14);
}

#[test]
fn test_leading_term_with_degree() {
    let generator = BinaryField8b::new(0x2d);
    let expr = ArithExpr::Var(0)
        * (ArithExpr::Var(1) * ArithExpr::Var(2) * ArithExpr::Const(generator)
            + ArithExpr::Var(4))
        + ArithExpr::Var(5).pow(3)
        + ArithExpr::Const(BinaryField8b::one());

    let expected_expr = ArithExpr::Var(0)
        * ((ArithExpr::Var(1) * ArithExpr::Var(2)) * ArithExpr::Const(generator))
        + ArithExpr::Var(5).pow(3);

    assert_eq!(expr.leading_term_with_degree(), (3, expected_expr));
}

#[test]
fn test_remap_vars_with_too_few_vars() {
    type F = BinaryField8b;
    let expr = ((ArithExpr::Var(0) + ArithExpr::Const(F::one())) * ArithExpr::Var(1)).pow(3);
    assert!(matches!(expr.remap_vars(&[5]), Err(Error::IncorrectArgumentLength { .. })));
}

#[test]
fn test_remap_vars_works() {
    type F = BinaryField8b;
    let expr = ((ArithExpr::Var(0) + ArithExpr::Const(F::one())) * ArithExpr::Var(1)).pow(3);
    let new_expr = expr.remap_vars(&[5, 3]);

    let expected = ((ArithExpr::Var(5) + ArithExpr::Const(F::one())) * ArithExpr::Var(3)).pow(3);
    assert_eq!(new_expr.unwrap(), expected);
}

#[test]
fn test_optimize_identity_handling() {
    type F = BinaryField8b;
    let zero = ArithExpr::<F>::zero();
    let one = ArithExpr::<F>::one();

    assert_eq!((zero.clone() * ArithExpr::<F>::Var(0)).optimize(), zero);
    assert_eq!((ArithExpr::<F>::Var(0) * zero.clone()).optimize(), zero);

    assert_eq!((ArithExpr::<F>::Var(0) * one.clone()).optimize(), ArithExpr::Var(0));
    assert_eq!((one * ArithExpr::<F>::Var(0)).optimize(), ArithExpr::Var(0));

    assert_eq!((ArithExpr::<F>::Var(0) + zero.clone()).optimize(), ArithExpr::Var(0));
    assert_eq!((zero.clone() + ArithExpr::<F>::Var(0)).optimize(), ArithExpr::Var(0));

    assert_eq!((ArithExpr::<F>::Var(0) + ArithExpr::Var(0)).optimize(), zero);
}

#[test]
fn test_const_subst_and_optimize() {
    // NB: this is FlushSumcheckComposition from the constraint_system
    type F = BinaryField8b;
    let expr = ArithExpr::Var(0) * ArithExpr::Var(1) + ArithExpr::one() - ArithExpr::Var(1);
    assert_eq!(expr.const_subst(1, F::zero()).optimize().constant(), Some(F::one()));
}

#[test]
fn test_expression_upcast() {
    type F8 = BinaryField8b;
    type F = BinaryField128b;

    let expr = ((ArithExpr::Var(0) + ArithExpr::Const(F8::one()))
        * ArithExpr::Const(F8::new(222)))
    .pow(3);

    let expected = ((ArithExpr::Var(0) + ArithExpr::Const(F::one()))
        * ArithExpr::Const(F::new(222)))
    .pow(3);
    assert_eq!(expr.convert_field::<F>(), expected);
}

#[test]
fn test_expression_downcast() {
    type F8 = BinaryField8b;
    type F = BinaryField128b;

    let expr = ((ArithExpr::Var(0) + ArithExpr::Const(F::one()))
        * ArithExpr::Const(F::new(222)))
    .pow(3);

    assert!(expr.try_convert_field::<BinaryField1b>().is_err());

    let expected = ((ArithExpr::Var(0) + ArithExpr::Const(F8::one()))
        * ArithExpr::Const(F8::new(222)))
    .pow(3);
    assert_eq!(expr.try_convert_field::<BinaryField8b>().unwrap(), expected);
}

#[test]
fn test_linear_normal_form() {
    type F = BinaryField128b;

    let expr = Const(F::new(133))
        + Const(F::new(42)) * Var(0)
        + Var(2)
        + Const(F::new(11)) * Const(F::new(37)) * Var(3);
    let normal_form = expr.linear_normal_form().unwrap();
    assert_eq!(normal_form.constant, F::new(133));
    assert_eq!(
        normal_form.var_coeffs,
        vec![F::new(42), F::zero(), F::one(), F::new(11) * F::new(37)]
    );

    let expr = Const(F::zero());
    let normal_form = expr.linear_normal_form().unwrap();
    assert_eq!(normal_form.constant, F::zero());
    assert!(normal_form.var_coeffs.is_empty());

    let expr: ArithExpr<F> = Var(2);
    let normal_form = expr.linear_normal_form().unwrap();
    assert_eq!(normal_form.constant, F::zero());
    assert_eq!(normal_form.var_coeffs, vec![F::zero(), F::zero(), F::one()]);

    let expr: ArithExpr<F> = Var(0) + Var(3);
    let normal_form = expr.linear_normal_form().unwrap();
    assert_eq!(normal_form.constant, F::zero());
    assert_eq!(normal_form.var_coeffs, vec![F::one(), F::zero(), F::zero(), F::one()]);

    let expr: ArithExpr<F> = (Var(0) + Const(F::new(5))) * Const(F::new(3));
    let normal_form = expr.linear_normal_form().unwrap();
    assert_eq!(normal_form.constant, F::new(15));
    assert_eq!(normal_form.var_coeffs, vec![F::new(3)]);

    let expr: ArithExpr<F> =
        Const(F::new(7)) + Const(F::new(2)) * Var(1) + Const(F::new(4)) * Var(0);
    let normal_form = expr.linear_normal_form().unwrap();
    assert_eq!(normal_form.constant, F::new(7));
    assert_eq!(normal_form.var_coeffs, vec![F::new(4), F::new(2)]);

    let expr: ArithExpr<F> = Const(F::new(2)) * (Var(1) + Var(2));
    let normal_form = expr.linear_normal_form().unwrap();
    assert_eq!(normal_form.constant, F::zero());
    assert_eq!(normal_form.var_coeffs, vec![F::zero(), F::new(2), F::new(2)]);

    let expr: ArithExpr<F> = Var(0) * Var(1);
    let result_err = expr.linear_normal_form();
    assert!(matches!(result_err, Err(Error::NonLinearExpression)));

    let expr: ArithExpr<F> = (Var(0) + Const(F::one())).pow(2);
    let result_err = expr.linear_normal_form();
    assert!(matches!(result_err, Err(Error::NonLinearExpression)));
}

use arith_expr::ArithExpr::{Const, Var};
use arith_expr::{ArithExpr, BinaryField128b, BinaryField1b, BinaryField8b, Error, Field};

type F = BinaryField8b;

/// The value of `expr` where variable `i` is `point[i]`.
fn value(expr: &ArithExpr<F>, point: &[u8]) -> F {
    let mut closed = expr.clone();
    for (i, v) in point.iter().enumerate() {
        closed = closed.const_subst(i, F::new(*v));
    }
    closed.optimize().constant().unwrap()
}

fn num(v: u8) -> ArithExpr<F> {
    Const(F::new(v))
}

#[test]
fn n_vars_is_one_above_the_highest_index() {
    assert_eq!(num(3).n_vars(), 0);
    let expr: ArithExpr<F> = Var(4) * Var(1) + Var(2).pow(3);
    assert_eq!(expr.n_vars(), 5);
    assert_eq!(expr.vars_usage(), vec![false, true, true, false, true]);
    assert_eq!(num(3).vars_usage(), Vec::<bool>::new());
}

#[test]
fn degree_of_sums_products_and_powers() {
    let expr: ArithExpr<F> = Var(0) * Var(1) + Var(2).pow(5);
    assert_eq!(expr.degree(), 5);
    let expr: ArithExpr<F> = (Var(0) * Var(1)).pow(0);
    assert_eq!(expr.degree(), 0);
    assert_eq!((num(0) * Var(7)).degree(), 1);
}

#[test]
fn remap_names_the_leftmost_missing_index() {
    let expr: ArithExpr<F> = Var(0) * (Var(4) + Var(2));
    match expr.remap_vars(&[7, 8]) {
        Err(Error::IncorrectArgumentLength { arg, expected }) => {
            assert_eq!(arg, "subset");
            assert_eq!(expected, 4);
        }
        other => panic!("{:?}", other),
    }
}

#[test]
fn remap_needs_exactly_as_many_indices_as_variables() {
    let expr: ArithExpr<F> = Var(1).pow(2);
    assert!(expr.clone().remap_vars(&[0]).is_err());
    assert_eq!(expr.remap_vars(&[0, 9]), Ok(Var(9).pow(2)));
    assert_eq!(num(5).remap_vars(&[]), Ok(num(5)));
}

#[test]
fn remapped_expression_reads_the_remapped_coordinates() {
    let expr = Var(0) * Var(1) + num(9) * Var(0);
    let remapped = expr.clone().remap_vars(&[2, 0]).unwrap();
    assert_eq!(value(&remapped, &[11, 99, 5]), value(&expr, &[5, 11]));
    assert_eq!(remapped.degree(), expr.degree());
}

#[test]
fn substitution_fixes_one_coordinate_and_removes_it() {
    let expr = (Var(0) + Var(1)) * Var(1) + Var(2).pow(3);
    let fixed = expr.clone().const_subst(1, F::new(77));
    assert_eq!(fixed.vars_usage(), vec![true, false, true]);
    assert_eq!(value(&fixed, &[5, 1, 9]), value(&expr, &[5, 77, 9]));
    assert_eq!(expr.clone().const_subst(6, F::new(1)), expr);
}

#[test]
fn composite_nodes_and_constants() {
    assert!(!num(2).is_composite());
    assert!(!ArithExpr::<F>::Var(2).is_composite());
    assert!((num(2) + Var(0)).is_composite());
    assert!((num(2) * Var(0)).is_composite());
    assert!(num(2).pow(1).is_composite());
    assert_eq!(num(2).constant(), Some(F::new(2)));
    assert_eq!(num(2).pow(1).constant(), None);
    assert_eq!(ArithExpr::<F>::Var(0).constant(), None);
}

#[test]
fn operators_build_nodes() {
    let a: ArithExpr<F> = Var(0);
    let b = num(3);
    let sum = ArithExpr::Add(Box::new(a.clone()), Box::new(b.clone()));
    let product = ArithExpr::Mul(Box::new(a.clone()), Box::new(b.clone()));
    assert_eq!(a.clone() + b.clone(), sum);
    assert_eq!(a.clone() - b.clone(), sum);
    assert_eq!(a.clone() * b.clone(), product);
    let mut c = a.clone();
    c += b.clone();
    assert_eq!(c, sum);
    let mut c = a.clone();
    c -= b.clone();
    assert_eq!(c, sum);
    let mut c = a.clone();
    c *= b.clone();
    assert_eq!(c, product);
    assert_eq!(ArithExpr::<F>::default(), num(0));
    assert_eq!(ArithExpr::<F>::one(), num(1));
}

#[test]
fn subtraction_is_undone_by_addition() {
    let a = Var(0) * num(7);
    let b = Var(1).pow(2);
    let back = (a.clone() - b.clone()) + b;
    assert_eq!(value(&back, &[13, 200]), value(&a, &[13, 200]));
}

#[test]
fn sums_and_products_fold_from_the_left() {
    let items: Vec<ArithExpr<F>> = vec![Var(0), Var(1), num(4)];
    assert_eq!(ArithExpr::sum(items.clone().into_iter()), Var(0) + Var(1) + num(4));
    assert_eq!(ArithExpr::product(items.into_iter()), Var(0) * Var(1) * num(4));

    let single: Vec<ArithExpr<F>> = vec![Var(3)];
    assert_eq!(ArithExpr::sum(single.clone().into_iter()), Var(3));
    assert_eq!(ArithExpr::product(single.into_iter()), Var(3));

    let none: Vec<ArithExpr<F>> = vec![];
    assert_eq!(ArithExpr::sum(none.clone().into_iter()), num(0));
    assert_eq!(ArithExpr::product(none.into_iter()), num(1));
}

#[test]
fn equality_is_that_of_trees() {
    let a: ArithExpr<F> = Var(0) + Var(1);
    assert_ne!(a, Var(1) + Var(0));
    assert_ne!(a, Var(0) * Var(1));
    assert_ne!(ArithExpr::<F>::Var(0).pow(1), Var(0));
    assert_ne!(ArithExpr::<F>::Var(0).pow(1), Var(0).pow(2));
    assert_eq!(a, a.clone());
}

#[test]
fn optimize_folds_constants() {
    assert_eq!((num(5) + num(6)).optimize(), num(3));
    assert_eq!((num(5) * num(3)).optimize(), num(15));
    assert_eq!(num(2).pow(2).optimize(), num(3));
    assert_eq!(num(0).pow(0).optimize(), num(1));
    let expr: ArithExpr<F> = Var(3) * Var(3);
    assert_eq!(expr.optimize(), expr);
}

#[test]
fn optimize_multiplies_nested_exponents() {
    let expr: ArithExpr<F> = Var(0).pow(3).pow(5).pow(2);
    assert_eq!(expr.optimize(), Var(0).pow(30));
    let expr: ArithExpr<F> = Var(0).pow(0).pow(7);
    assert_eq!(expr.optimize(), Var(0).pow(0));
}

#[test]
fn optimize_cancels_equal_summands_after_rewriting_them() {
    let expr: ArithExpr<F> = (Var(0) * num(1)) + (num(0) + Var(0));
    assert_eq!(expr.optimize(), num(0));
    let expr: ArithExpr<F> = (Var(0) + Var(1)) + (Var(1) + Var(0));
    assert_eq!(expr.optimize(), expr);
}

#[test]
fn optimize_keeps_values_and_is_finished_after_one_round() {
    let expr = ((Var(0) * num(1) + num(0)).pow(2).pow(3) + Var(1) * (num(2) + num(3)))
        * (Var(2) + num(9) * num(0));
    let optimized = expr.optimize();
    assert_eq!(optimized, (Var(0).pow(6) + Var(1)) * Var(2));
    assert_eq!(optimized.optimize(), optimized);
    assert!(optimized.degree() <= expr.degree());
    assert!(optimized.n_vars() <= expr.n_vars());
    for p in [[0, 0, 0], [1, 2, 3], [200, 100, 50]] {
        assert_eq!(value(&expr, &p), value(&optimized, &p));
    }
}

#[test]
fn closed_expression_optimizes_to_a_constant() {
    let expr = (num(7) * num(9) + num(1)).pow(4) * (num(200) - num(200));
    assert_eq!(expr.optimize(), num(0));
}

#[test]
fn leading_term_is_homogeneous_of_the_same_degree() {
    let expr = (Var(0) * Var(1) + Var(2)).pow(2) + num(7) * Var(0).pow(4) + Var(1).pow(3);
    let (degree, leading) = expr.leading_term_with_degree();
    assert_eq!(degree, 4);
    assert_eq!(leading, (Var(0) * Var(1)).pow(2) + num(7) * Var(0).pow(4));
    assert_eq!(leading, expr.leading_term());
    assert_eq!(leading.leading_term(), leading);
    assert_eq!(leading.degree(), 4);

    let t = F::new(19);
    let p = [3u8, 90, 41];
    let at_p = value(&leading, &p);
    let mut scaled = leading.clone();
    for (i, v) in p.iter().enumerate() {
        scaled = scaled.const_subst(i, t * F::new(*v));
    }
    let at_scaled = scaled.optimize().constant().unwrap();
    assert_eq!(at_scaled, t * t * t * t * at_p);
}

#[test]
fn leading_term_is_the_top_coefficient_along_a_line() {
    // (2t)(3t) + 5t + 9, along the line through (2, 3, 5)
    let expr = Var(0) * Var(1) + Var(2) + num(9);
    let top = value(&expr.leading_term(), &[2, 3, 5]);
    assert_eq!(top, F::new(2) * F::new(3));
    for t in [0u8, 1, 2, 77, 255] {
        let t = F::new(t);
        let mut on_line = expr.clone();
        for (i, v) in [2u8, 3, 5].iter().enumerate() {
            on_line = on_line.const_subst(i, t * F::new(*v));
        }
        assert_eq!(
            on_line.optimize().constant().unwrap(),
            F::new(9) + t * F::new(5) + t * t * top
        );
    }
}

#[test]
fn text_of_expressions() {
    let expr = (Var(0) + num(0x2d)) * Var(12).pow(107);
    assert_eq!(expr.to_string(), "((x0 + 0x2d) * (x12)^107)");
    assert_eq!(num(7).to_string(), "0x07");
    let expr: ArithExpr<BinaryField1b> = Const(BinaryField1b::one()) + Var(0);
    assert_eq!(expr.to_string(), "(0x1 + x0)");
    let expr: ArithExpr<BinaryField128b> = Const(BinaryField128b::new(0xabc));
    assert_eq!(expr.to_string(), "0x00000000000000000000000000000abc");
}

#[test]
fn tower_level_is_the_highest_of_the_constants() {
    let at = |v: u128| -> ArithExpr<BinaryField128b> { Const(BinaryField128b::new(v)) };
    assert_eq!(at(0).binary_tower_level(), 0);
    assert_eq!(at(1).binary_tower_level(), 0);
    assert_eq!(at(2).binary_tower_level(), 1);
    assert_eq!(at(15).binary_tower_level(), 2);
    assert_eq!(at(16).binary_tower_level(), 3);
    assert_eq!(at(1 << 64).binary_tower_level(), 7);
    assert_eq!(ArithExpr::<BinaryField128b>::Var(3).binary_tower_level(), 0);
    let expr = (at(3) * Var(0) + at(256)).pow(9) * at(1);
    assert_eq!(expr.binary_tower_level(), 4);
}

#[test]
fn upcast_keeps_values_and_is_undone_by_downcast() {
    let expr = (Var(0) + num(222)) * num(19) + Var(1).pow(2);
    let up = expr.convert_field::<BinaryField128b>();
    assert_eq!(up.try_convert_field::<BinaryField8b>(), Ok(expr.clone()));

    let closed = up
        .const_subst(0, BinaryField128b::from(F::new(7)))
        .const_subst(1, BinaryField128b::from(F::new(130)));
    assert_eq!(
        closed.optimize().constant(),
        Some(BinaryField128b::from(value(&expr, &[7, 130])))
    );
}

#[test]
fn downcast_fails_on_a_constant_outside_the_subfield() {
    let expr: ArithExpr<BinaryField128b> = Var(0) + Const(BinaryField128b::new(256));
    assert_eq!(expr.try_convert_field::<BinaryField8b>(), Err(arith_expr::NotInSubfield {}));
    let expr: ArithExpr<BinaryField128b> = Var(0) + Const(BinaryField128b::new(1));
    assert_eq!(
        expr.try_convert_field::<BinaryField1b>(),
        Ok(Var(0) + Const(BinaryField1b::one()))
    );
}

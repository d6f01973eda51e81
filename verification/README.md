# arith_expr

Arithmetic expressions over a field: trees whose leaves are constants and variables and whose
nodes are sums, products and powers. Expressions can be inspected (number of variables, total
degree, which variables occur, tower level of the constants), rewritten (remapping and
substitution of variables, conversion to another field, optimization, leading term) and evaluated
symbolically to a linear normal form, directly or over dual numbers.

Every function of the library is verified with Verus.

- `src/expr.rs`: the expressions, what they mean, and the operations that keep their shape
- `src/ops.rs`, `src/text.rs`: operators, sums and products, and text
- `src/optimize.rs`, `src/leading.rs`, `src/convert.rs`: rewriting
- `src/linear.rs`, `src/evaluate.rs`: dual numbers, normal forms, and the way to them
- `src/affine.rs`, `src/poly.rs`: affine functions and polynomials in one variable, which the
  contracts and laws speak of
- `src/laws.rs`, `src/tower_laws.rs`: what holds across functions
- `src/field.rs`: what is asked of a field
- `src/tower.rs`, `src/subfield.rs`: the binary tower of fields
- `app/`: the traits of std that the verified types do not have

The value of an expression at a point, `ArithExpr::eval`, is the meaning that the laws refer to:
optimization, remapping, substitution, conversion and the normal forms are each proved to keep it
or to change it in the way they say.

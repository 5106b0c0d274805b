use rpn_calc::globals::MathError;
use rpn_calc::reverse_polish_calculator::calculate;

fn calc(line: &str) -> Result<String, MathError> {
    calculate(line.to_string())
}

#[test]
fn derivative_of_pure_power() {
    assert_eq!(calc("x 3 ^ d"), Ok("3 x 2 ^ *".to_string()));
}

#[test]
fn division_by_literal_zero() {
    assert_eq!(calc("1 0 /"), Err(MathError::NAN));
    assert_eq!(MathError::NAN.message(), "NAN");
}

#[test]
fn negative_power_yields_reciprocal() {
    // x^-1 is 1 over x; the denominator renders through the term grammar,
    // which always writes the coefficient, so the power-one term is
    // `1 x *`.
    assert_eq!(calc("x -1 ^"), Ok("1 1 x * /".to_string()));
}

#[test]
fn constant_denominator_collapse() {
    assert_eq!(calc("1 2 / 1 2 / +"), Ok("1".to_string()));
}

#[test]
fn malformed_standalone_token() {
    assert_eq!(calc("abc"), Err(MathError::ParseError));
    assert_eq!(MathError::ParseError.message(), "Parse Error");
}

#[test]
fn insufficient_operands() {
    assert_eq!(calc("+"), Err(MathError::ParseError));
}

#[test]
fn empty_line_is_parse_error() {
    assert_eq!(calc(""), Err(MathError::ParseError));
}

#[test]
fn two_leftover_values_are_parse_error() {
    assert_eq!(calc("1 2"), Err(MathError::ParseError));
}

#[test]
fn plain_literal_round_trips() {
    assert_eq!(calc("3"), Ok("3".to_string()));
    assert_eq!(calc("-2"), Ok("-2".to_string()));
}

#[test]
fn variable_renders_as_term() {
    assert_eq!(calc("x"), Ok("1 x *".to_string()));
}

#[test]
fn arithmetic_on_literals() {
    assert_eq!(calc("2 3 +"), Ok("5".to_string()));
    assert_eq!(calc("2 3 -"), Ok("-1".to_string()));
    assert_eq!(calc("2 3 *"), Ok("6".to_string()));
    assert_eq!(calc("1 2 /"), Ok("0.5".to_string()));
    assert_eq!(calc("1 2 / 4 *"), Ok("2".to_string()));
}

#[test]
fn polynomial_sum_renders_in_power_order() {
    assert_eq!(calc("x 2 +"), Ok("2 1 x * +".to_string()));
}

#[test]
fn negative_even_power_of_constant() {
    assert_eq!(calc("2 -2 ^"), Ok("0.25".to_string()));
}

#[test]
fn fractional_exponent_is_parse_error() {
    assert_eq!(calc("2 2.5 ^"), Err(MathError::ParseError));
}

#[test]
fn symbolic_exponent_is_parse_error() {
    assert_eq!(calc("2 x ^"), Err(MathError::ParseError));
}

#[test]
fn exponent_may_be_a_constant_quotient() {
    // The exponent 6/2 reduces to the integer 3.
    assert_eq!(calc("x 6 2 / ^"), Ok("1 x 3 ^ *".to_string()));
}

#[test]
fn collapsing_denominator_is_nan() {
    // x - x normalizes to zero; dividing by it is undefined.
    assert_eq!(calc("1 x x - /"), Err(MathError::NAN));
}

#[test]
fn derivative_needs_one_operand() {
    assert_eq!(calc("d"), Err(MathError::ParseError));
}

#[test]
fn quotient_rule_for_one_over_x() {
    // d(1/x) = -1/x^2.
    assert_eq!(calc("1 x / d"), Ok("-1 1 x 2 ^ * /".to_string()));
}

#[test]
fn whitespace_variants_split_alike() {
    assert_eq!(calc("  2\t3 +  "), Ok("5".to_string()));
}

#[test]
fn zeroth_power_is_one() {
    assert_eq!(calc("x 0 ^"), Ok("1".to_string()));
}

#[test]
fn derivative_of_variable() {
    assert_eq!(calc("x d"), Ok("1".to_string()));
}

#[test]
fn derivative_of_constant_is_zero_line() {
    assert_eq!(calc("5 d"), Ok("0".to_string()));
}

#[test]
fn first_power_is_identity() {
    assert_eq!(calc("x 1 ^"), Ok("1 x *".to_string()));
}

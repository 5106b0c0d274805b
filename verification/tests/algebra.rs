use rpn_calc::expression::Expression;
use rpn_calc::globals::{Derivative, DisplayRPN, Exponent, MathError, EPSILON};
use rpn_calc::number::ONE_BITS;
use rpn_calc::polynomial::Polynomial;

fn is_equal(a: &Vec<u64>, b: &Vec<f64>) -> bool {
    a.len() == b.len() && a.iter().zip(b).all(|(a, b)| (f64::from_bits(*a) - b).abs() < 1e-6)
}

fn poly(coeff: Vec<f64>) -> Polynomial {
    Polynomial::new(coeff.iter().map(|c| c.to_bits()).collect())
}

fn expr(token: &str) -> Expression {
    match Expression::from(token) {
        Ok(e) => e,
        Err(_) => panic!("token must parse"),
    }
}

#[test]
fn check_squaring() {
    let mono = Polynomial {
        coeff: vec![0.0f64.to_bits(), 1.0f64.to_bits()],
    };

    println!("{:#?}", mono.square());

    assert!(is_equal(&mono.square().coeff, &vec![0.0, 0.0, 1.0, 0.0]))
}

#[test]
fn tolerance_constant_is_the_double_bit_pattern() {
    assert_eq!(EPSILON, 1e-6f64.to_bits());
    assert_eq!(ONE_BITS, 1.0f64.to_bits());
}

#[test]
fn addition_is_commutative_up_to_tolerance() {
    let a = poly(vec![1.0, 2.5, -3.0]);
    let b = poly(vec![0.5, -2.5]);
    let left = a.add(&b);
    let right = b.add(&a);
    assert!(is_equal(&left.coeff, &vec![1.5, 0.0, -3.0]));
    assert!(is_equal(&right.coeff, &vec![1.5, 0.0, -3.0]));
}

#[test]
fn addition_is_associative_on_moderate_values() {
    let a = poly(vec![1.0, 2.0]);
    let b = poly(vec![3.0]);
    let c = poly(vec![-4.0, 0.25]);
    let left = a.add(&b).add(&c);
    let right = a.add(&b.add(&c));
    assert!(is_equal(&left.coeff, &vec![0.0, 2.25]));
    assert!(is_equal(&right.coeff, &vec![0.0, 2.25]));
}

fn close(a: &Expression, b: &Expression) {
    let (an, bn) = (a.numerator(), b.numerator());
    let n = an.len().max(bn.len());
    for i in 0..n {
        let x = an.get(i).map(f64::from_bits).unwrap_or(0.0);
        let y = bn.get(i).map(f64::from_bits).unwrap_or(0.0);
        assert!((x - y).abs() < 1e-6, "coefficient {}: {} vs {}", i, x, y);
    }
}

#[test]
fn power_equals_iterated_multiplication() {
    // e = x + 2, checked for the exponents 0, 1, 2, 3 and 5.
    let e = expr("x").add(&expr("2"));
    close(&e.pow(0), &Expression::one(1));
    close(&e.pow(1), &e);
    let m2 = e.mul(&e);
    close(&e.pow(2), &m2);
    let m3 = m2.mul(&e);
    close(&e.pow(3), &m3);
    let m5 = m3.mul(&e).mul(&e);
    close(&e.pow(5), &m5);
}

#[test]
fn polynomial_rejects_nothing_it_should_accept() {
    let p = poly(vec![0.0]);
    assert!(p.is_zero_polynomial());
    assert!(p.is_constant_polynomial());
    let q = poly(vec![5.0, 1e-9]);
    assert!(!q.is_zero_polynomial());
    assert!(q.is_constant_polynomial());
}

#[test]
fn clean_zeroes_and_trims() {
    let mut p = poly(vec![3.0, 1e-9, 0.0, 5e-7]);
    p.clean();
    assert!(is_equal(&p.coeff, &vec![3.0]));
}

#[test]
fn clean_is_idempotent_on_polynomials() {
    let mut p = poly(vec![2e-6, 0.0, 1e-7, 4.0, 0.0]);
    p.clean();
    let once = p.coeff.clone();
    p.clean();
    assert_eq!(p.coeff, once);
}

#[test]
fn clean_is_idempotent_on_expressions() {
    let mut e = expr("3").div(&expr("2"));
    e.clean();
    let once = (e.numerator().coeff.clone(), e.denominator().coeff.clone());
    e.clean();
    assert_eq!(e.numerator().coeff, once.0);
    assert_eq!(e.denominator().coeff, once.1);
}

#[test]
fn expression_clean_can_need_a_second_pass() {
    // Dividing by the collapsed constant denominator may leave a
    // coefficient within the tolerance that only a second pass zeroes:
    // this is the input family excluded from the idempotence law.
    let mut e = expr("0.000002").div(&expr("4"));
    e.clean();
    assert!(is_equal(&e.numerator().coeff, &vec![5e-7]));
    e.clean();
    assert!(is_equal(&e.numerator().coeff, &vec![0.0]));
}

#[test]
fn derivative_of_constant_is_zero() {
    let p = poly(vec![7.0]);
    assert!(is_equal(&p.d().coeff, &vec![0.0]));
}

#[test]
fn fallible_accessors_reject_out_of_range() {
    let mut p = poly(vec![1.0, 2.0]);
    assert_eq!(p.get(1), Some(2.0f64.to_bits()));
    assert_eq!(p.get(2), None);
    assert!(p.set_coeff(0, 9.0f64.to_bits()));
    assert!(!p.set_coeff(2, 9.0f64.to_bits()));
    assert!(is_equal(&p.coeff, &vec![9.0, 2.0]));
}

#[test]
fn parse_failures_from_tokens() {
    assert!(matches!(Expression::from(""), Err(MathError::ParseError)));
    assert!(matches!(Expression::from("1.2.3"), Err(MathError::ParseError)));
    assert!(Expression::from("x").is_ok());
    assert!(Expression::from("-1.5e3").is_ok());
}

#[test]
fn exponentiation_number_requires_constant_parts() {
    let x = expr("x");
    assert_eq!(x.exponentiation_number(), None);
    let half = expr("1").div(&expr("2"));
    let n = half.exponentiation_number();
    assert_eq!(n.map(f64::from_bits), Some(0.5));
    let zero_den = expr("1").div(&expr("0"));
    assert_eq!(zero_den.exponentiation_number(), None);
}

#[test]
fn denominator_zero_is_detected() {
    let bad = expr("1").div(&expr("0"));
    assert!(bad.is_denominator_zero());
    assert!(!expr("1").is_denominator_zero());
}

#[test]
fn polynomial_renders_its_terms() {
    let p = poly(vec![2.0, 1.0, 0.0, 4.0]);
    assert_eq!(p.rpn_string(), "2 1 x * + 4 x 3 ^ * +");
    let z = poly(vec![0.0]);
    assert_eq!(z.rpn_string(), "0");
}

#[test]
fn expression_renders_with_denominator() {
    let mut e = expr("1").div(&expr("x"));
    e.clean();
    assert_eq!(e.rpn_string(), "1 1 x * /");
    let mut c = expr("4").div(&expr("2"));
    c.clean();
    assert_eq!(c.rpn_string(), "2");
}

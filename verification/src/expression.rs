//! Rational functions: a numerator polynomial over a denominator
//! polynomial.
//!
//! Arithmetic cross-multiplies to a common denominator, the derivative
//! follows the quotient rule, and exponentiation squares and multiplies,
//! with a negative power taken as the reciprocal of the positive one. The
//! only algebraic reduction is the constant-denominator collapse performed
//! by [`Expression::clean`].
use crate::globals::{Derivative, DisplayRPN, Exponent, MathError};
use crate::number::add_bits;
use crate::number::add_coeff;
use crate::number::below_eps;
use crate::number::below_eps_bits;
use crate::number::div_bits;
use crate::number::div_coeff;
use crate::number::f_parse;
use crate::number::parse_bits;
use crate::number::NEG_ONE_BITS;
use crate::number::ONE_BITS;
use crate::number::ZERO_BITS;
use crate::polynomial::spec_clean;
use crate::polynomial::spec_is_constant_poly;
use crate::polynomial::spec_is_zero_poly;
use crate::polynomial::spec_one;
use crate::polynomial::spec_padd;
use crate::polynomial::spec_pd;
use crate::polynomial::spec_pmul;
use crate::polynomial::spec_pneg;
use crate::polynomial::spec_psub;
use crate::polynomial::spec_rpn_poly;
use crate::polynomial::spec_zero;
use crate::polynomial::Polynomial;
use vstd::prelude::*;
use vstd::string::StringExecFns;
use vstd::string::StringSliceAdditionalSpecFns;

verus! {

/// The model of an expression: the numerator's and the denominator's
/// coefficient sequences.
pub open spec fn spec_ezero(n: int) -> (Seq<u64>, Seq<u64>) {
    (spec_zero(n), spec_one(1))
}

/// Numerator of `n` ones over the denominator one.
pub open spec fn spec_eone(n: int) -> (Seq<u64>, Seq<u64>) {
    (spec_one(n), spec_one(1))
}

/// The degree-one identity `x`, as numerator `[0, 1]` over one.
pub open spec fn spec_ex() -> (Seq<u64>, Seq<u64>) {
    (seq![ZERO_BITS, ONE_BITS], spec_one(1))
}

/// A constant expression: the single parsed coefficient over one.
pub open spec fn spec_econst(c: u64) -> (Seq<u64>, Seq<u64>) {
    (seq![c], spec_one(1))
}

/// Product: numerators and denominators multiplied independently.
pub open spec fn spec_emul(a: (Seq<u64>, Seq<u64>), b: (Seq<u64>, Seq<u64>)) -> (
    Seq<u64>,
    Seq<u64>,
) {
    (spec_pmul(a.0, b.0), spec_pmul(a.1, b.1))
}

/// Quotient: multiplication by the flipped right operand, with no zero
/// check here — the evaluator checks the denominator after normalizing.
pub open spec fn spec_ediv(a: (Seq<u64>, Seq<u64>), b: (Seq<u64>, Seq<u64>)) -> (
    Seq<u64>,
    Seq<u64>,
) {
    (spec_pmul(a.0, b.1), spec_pmul(a.1, b.0))
}

/// Sum by cross-multiplication: `n1*d2 + d1*n2` over `d1*d2`.
pub open spec fn spec_eadd(a: (Seq<u64>, Seq<u64>), b: (Seq<u64>, Seq<u64>)) -> (
    Seq<u64>,
    Seq<u64>,
) {
    (spec_padd(spec_pmul(a.0, b.1), spec_pmul(a.1, b.0)), spec_pmul(a.1, b.1))
}

/// Difference: the sum with the right operand's numerator negated.
pub open spec fn spec_esub(a: (Seq<u64>, Seq<u64>), b: (Seq<u64>, Seq<u64>)) -> (
    Seq<u64>,
    Seq<u64>,
) {
    spec_eadd(a, (spec_pneg(b.0), b.1))
}

/// The quotient rule: `(v*u' - u*v') / v^2` for `u/v`.
pub open spec fn spec_ed(e: (Seq<u64>, Seq<u64>)) -> (Seq<u64>, Seq<u64>) {
    (spec_psub(spec_pmul(e.1, spec_pd(e.0)), spec_pmul(e.0, spec_pd(e.1))), spec_pmul(e.1, e.1))
}

/// Both parts squared.
pub open spec fn spec_esquare(e: (Seq<u64>, Seq<u64>)) -> (Seq<u64>, Seq<u64>) {
    (spec_pmul(e.0, e.0), spec_pmul(e.1, e.1))
}

/// Binary exponentiation. Power zero is the constant one and power one the
/// value itself; a negative power divides one by the positive power; any
/// other squares the half power and multiplies by the base once more when
/// the exponent is odd.
pub open spec fn spec_epow(e: (Seq<u64>, Seq<u64>), n: int) -> (Seq<u64>, Seq<u64>)
    decreases (if n < 0 { 1 - n } else { n }),
{
    if n == 0 {
        spec_eone(1)
    } else if n == 1 {
        e
    } else if n < 0 {
        spec_ediv(spec_eone(1), spec_epow(e, -n))
    } else {
        let h = spec_esquare(spec_epow(e, n / 2));
        if n % 2 == 1 {
            spec_emul(h, e)
        } else {
            h
        }
    }
}

/// Normalization: both parts are normalized; a denominator that became a
/// nonzero constant divides the numerator and is reset to one; a zero
/// denominator is left standing as the undefined-result signal.
pub open spec fn spec_eclean(e: (Seq<u64>, Seq<u64>)) -> (Seq<u64>, Seq<u64>) {
    let n1 = spec_clean(e.0);
    let d1 = spec_clean(e.1);
    if spec_is_constant_poly(d1) {
        if below_eps(d1[0]) {
            (n1, d1)
        } else {
            (Seq::new(n1.len(), |i: int| div_coeff(n1[i], d1[0])), spec_one(1))
        }
    } else {
        (n1, d1)
    }
}

/// Whether the denominator is the zero polynomial: the undefined-result
/// test.
pub open spec fn spec_eden_zero(e: (Seq<u64>, Seq<u64>)) -> bool {
    spec_is_zero_poly(e.1)
}

/// The constant an expression reduces to, where both parts are constant
/// polynomials and the denominator's constant is not below the tolerance:
/// the quotient of the two leading coefficients. Anything else yields
/// nothing and cannot stand as an exponent.
pub open spec fn spec_expnum(e: (Seq<u64>, Seq<u64>)) -> Option<u64> {
    if e.1.len() < 1 || e.0.len() < 1 {
        None
    } else if exists|i: int|
        1 <= i < e.1.len() && crate::number::above_eps(#[trigger] e.1[i]) {
        None
    } else if exists|i: int|
        1 <= i < e.0.len() && crate::number::above_eps(#[trigger] e.0[i]) {
        None
    } else if below_eps(e.1[0]) {
        None
    } else {
        Some(div_coeff(e.0[0], e.1[0]))
    }
}

/// The postfix text of an expression: only the numerator where the
/// denominator is the constant one up to the tolerance, else numerator and
/// denominator followed by the postfix `/`.
pub open spec fn spec_rpn_expr(e: (Seq<u64>, Seq<u64>)) -> Seq<char> {
    if spec_is_constant_poly(e.1) && below_eps(add_coeff(e.1[0], NEG_ONE_BITS)) {
        spec_rpn_poly(e.0)
    } else {
        spec_rpn_poly(e.0) + " "@ + spec_rpn_poly(e.1) + " /"@
    }
}

/// LAW: for the small exponents, the binary exponentiation of an
/// expression is the iterated self-multiplication, coefficient for
/// coefficient: the zeroth power is the constant one, the first the value
/// itself, the second and third the products `e*e` and `(e*e)*e` in that
/// association. From the fourth power up the squaring groups the factors
/// differently, and two floating-point products associated differently
/// need not agree, so no such law holds there.
pub proof fn lemma_epow_iterated_mul(e: (Seq<u64>, Seq<u64>))
    ensures
        spec_epow(e, 0) == spec_eone(1),
        spec_epow(e, 1) == e,
        spec_epow(e, 2) == spec_emul(e, e),
        spec_epow(e, 3) == spec_emul(spec_emul(e, e), e),
{
    reveal_with_fuel(spec_epow, 4);
    assert(spec_esquare(e) == spec_emul(e, e));
    assert(spec_epow(e, 2) == spec_esquare(spec_epow(e, 1)));
    assert(spec_epow(e, 3) == spec_emul(spec_esquare(spec_epow(e, 1)), e));
}

/// The bit pattern of one is its own magnitude: above the tolerance and
/// not a NaN.
proof fn lemma_one_coeff_facts()
    ensures
        !below_eps(ONE_BITS),
        !crate::number::at_most_eps(ONE_BITS),
        !crate::number::is_nan_bits(ONE_BITS),
        !crate::number::is_nan_bits(ZERO_BITS),
{
    assert(0x3FF0_0000_0000_0000u64 & 0x7FFF_FFFF_FFFF_FFFFu64 == 0x3FF0_0000_0000_0000u64)
        by (bit_vector);
    assert(0u64 & 0x7FFF_FFFF_FFFF_FFFFu64 == 0u64) by (bit_vector);
}

/// LAW (restricted): normalizing an expression twice equals normalizing it
/// once. The restriction: after the one normalization, every numerator
/// coefficient must be an exact zero or lie above the tolerance, and the
/// last must lie above it unless the numerator is the single zero — the
/// division by a collapsed constant denominator can otherwise leave
/// coefficients that only the second pass would zero out, as in the
/// expression `0.000002 / 4`, whose once-normalized numerator holds
/// `0.0000005`.
pub proof fn lemma_eclean_idempotent(e: (Seq<u64>, Seq<u64>))
    requires
        forall|i: int|
            0 <= i < spec_eclean(e).0.len() ==> (#[trigger] spec_eclean(e).0[i]) == ZERO_BITS
                || crate::number::above_eps(spec_eclean(e).0[i]),
        crate::number::above_eps(spec_eclean(e).0.last()) || spec_eclean(e).0 =~= seq![ZERO_BITS],
    ensures
        spec_eclean(spec_eclean(e)) == spec_eclean(e),
{
    let n1 = spec_clean(e.0);
    let d1 = spec_clean(e.1);
    let c = spec_eclean(e);
    lemma_one_coeff_facts();
    crate::polynomial::lemma_clean_idempotent(e.0);
    crate::polynomial::lemma_clean_idempotent(e.1);
    if spec_is_constant_poly(d1) && !below_eps(d1[0]) {
        let q = c.0;
        let one1 = spec_one(1);
        assert(c.1 == one1);
        // The once-divided numerator passes through the zeroing pass
        // unchanged.
        assert forall|i: int| 0 <= i < q.len() implies crate::polynomial::spec_zero_small(q)[i]
            == q[i] by {
            assert(q[i] == ZERO_BITS || crate::number::above_eps(q[i]));
            if q[i] == ZERO_BITS {
                assert(0u64 & 0x7FFF_FFFF_FFFF_FFFFu64 == 0u64) by (bit_vector);
            }
        }
        assert(crate::polynomial::spec_zero_small(q) =~= q);
        // And through the trimming pass.
        if q =~= seq![ZERO_BITS] {
            assert(crate::number::below_eps(ZERO_BITS)) by {
                assert(0u64 & 0x7FFF_FFFF_FFFF_FFFFu64 == 0u64) by (bit_vector);
            }
            assert(crate::polynomial::spec_trim(q) == crate::polynomial::spec_trim(q.drop_last()));
            assert(q.drop_last() =~= Seq::<u64>::empty());
            assert(crate::polynomial::spec_trim(Seq::<u64>::empty()) =~= Seq::<u64>::empty());
            assert(spec_clean(q) =~= q);
        } else {
            assert(crate::number::above_eps(q.last()));
            assert(!below_eps(q.last()));
            assert(crate::polynomial::spec_trim(q) == q);
            assert(q.len() >= 1);
            assert(spec_clean(q) == q);
        }
        // The reset denominator is already normal.
        assert(crate::polynomial::spec_zero_small(one1) =~= one1);
        assert(!below_eps(one1.last()));
        assert(crate::polynomial::spec_trim(one1) == one1);
        assert(spec_clean(one1) == one1);
        assert(spec_is_constant_poly(one1));
        assert(one1[0] == ONE_BITS);
        // Dividing by one returns every coefficient unchanged.
        let q2 = Seq::new(q.len(), |i: int| div_coeff(q[i], ONE_BITS));
        assert forall|i: int| 0 <= i < q.len() implies q2[i] == q[i] by {
            assert(q[i] == ZERO_BITS || crate::number::above_eps(q[i]));
            assert(!crate::number::is_nan_bits(q[i]));
        }
        assert(q2 =~= q);
        assert(spec_eclean(c) == (q2, spec_one(1)));
        assert(spec_eclean(c) == c);
    } else {
        assert(c == (n1, d1));
        assert(spec_clean(n1) == n1);
        assert(spec_clean(d1) == d1);
        assert(spec_eclean(c) == c);
    }
}

pub struct Expression {
    numerator: Polynomial,
    denominator: Polynomial,
}

impl View for Expression {
    type V = (Seq<u64>, Seq<u64>);

    closed spec fn view(&self) -> (Seq<u64>, Seq<u64>) {
        (self.numerator@, self.denominator@)
    }
}

impl Expression {
    /// The zero expression with an `n`-coefficient numerator.
    pub fn zero(n: usize) -> (r: Expression)
        ensures
            r@ == spec_ezero(n as int),
    {
        Expression { numerator: Polynomial::zero(n), denominator: Polynomial::one(1) }
    }

    /// The expression with `n` numerator coefficients of one; the
    /// multiplicative identity only for `n` of one.
    pub fn one(n: usize) -> (r: Expression)
        ensures
            r@ == spec_eone(n as int),
    {
        Expression { numerator: Polynomial::one(n), denominator: Polynomial::one(1) }
    }

    /// The numerator, for reading.
    pub fn numerator(&self) -> (r: &Polynomial)
        ensures
            r@ == self@.0,
    {
        &self.numerator
    }

    /// The denominator, for reading.
    pub fn denominator(&self) -> (r: &Polynomial)
        ensures
            r@ == self@.1,
    {
        &self.denominator
    }

    /// Normalizes in place: numerator and denominator are normalized, and
    /// a denominator that became a nonzero constant divides every
    /// numerator coefficient and is reset to the constant one. A zero
    /// denominator is left as it is: it is the signal the evaluator
    /// checks.
    pub fn clean(&mut self)
        ensures
            final(self)@ == spec_eclean(old(self)@),
    {
        self.numerator.clean();
        self.denominator.clean();
        if self.denominator.is_constant_polynomial() {
            let value = match self.denominator.get(0) {
                Some(v) => v,
                None => {
                    return ;
                },
            };
            if below_eps_bits(value) {
                return ;
            }
            let mut out: Vec<u64> = Vec::new();
            let mut i: usize = 0;
            let n = self.numerator.len();
            while i < n
                invariant
                    i <= n,
                    n == self.numerator@.len(),
                    out@ == Seq::new(i as nat, |j: int| div_coeff(self.numerator@[j], value)),
                decreases n - i,
            {
                let q = div_bits(self.numerator.coeff[i], value);
                out.push(q);
                assert(out@ =~= Seq::new((i + 1) as nat, |j: int| div_coeff(self.numerator@[j], value)));
                i += 1;
            }
            self.numerator = Polynomial { coeff: out };
            self.denominator = Polynomial::one(1);
        }
    }

    /// Builds an expression from one token's bytes: the variable symbol
    /// `x` becomes the degree-one identity, anything else must parse as a
    /// decimal floating-point literal and becomes a constant; a token that
    /// parses as neither is a parse failure.
    pub fn from_bytes(token: &[u8]) -> (r: Result<Expression, MathError>)
        ensures
            token@ == seq![120u8] ==> (r matches Ok(e) && e@ == spec_ex()),
            token@ != seq![120u8] && token@.len() == 0 ==> r == Err::<Expression, MathError>(
                MathError::ParseError,
            ),
            token@ != seq![120u8] && token@.len() > 0 ==> match f_parse(token@) {
                Some(c) => (r matches Ok(e) && e@ == spec_econst(c)),
                None => r == Err::<Expression, MathError>(MathError::ParseError),
            },
    {
        if token.len() == 1 && token[0] == 120u8 {
            assert(token@ =~= seq![120u8]);
            let mut numerator = Polynomial::zero(2);
            numerator.coeff.set(1, ONE_BITS);
            assert(numerator@ =~= seq![ZERO_BITS, ONE_BITS]);
            return Ok(Expression { numerator, denominator: Polynomial::one(1) });
        }
        assert(token@ != seq![120u8]);
        if token.len() == 0 {
            return Err(MathError::ParseError);
        }
        match parse_bits(token) {
            Some(c) => {
                let mut coeff: Vec<u64> = Vec::new();
                coeff.push(c);
                assert(coeff@ =~= seq![c]);
                Ok(Expression { numerator: Polynomial { coeff }, denominator: Polynomial::one(1) })
            },
            None => Err(MathError::ParseError),
        }
    }

    /// Builds an expression from one token, handed over as text.
    pub fn from(input: &str) -> (r: Result<Expression, MathError>)
        ensures
            input.spec_bytes() == seq![120u8] ==> (r matches Ok(e) && e@ == spec_ex()),
            input.spec_bytes() != seq![120u8] && input.spec_bytes().len() == 0 ==> r == Err::<
                Expression,
                MathError,
            >(MathError::ParseError),
            input.spec_bytes() != seq![120u8] && input.spec_bytes().len() > 0 ==> match f_parse(
                input.spec_bytes(),
            ) {
                Some(c) => (r matches Ok(e) && e@ == spec_econst(c)),
                None => r == Err::<Expression, MathError>(MathError::ParseError),
            },
    {
        Expression::from_bytes(input.as_bytes())
    }

    /// Whether the denominator is the zero polynomial, the guard against
    /// an undefined result.
    pub fn is_denominator_zero(&self) -> (r: bool)
        ensures
            r == spec_eden_zero(self@),
    {
        self.denominator.is_zero_polynomial()
    }

    /// The constant this expression reduces to, where numerator and
    /// denominator are constant polynomials and the denominator's constant
    /// is not below the tolerance; nothing otherwise. Only such a constant
    /// may stand to the right of the exponentiation operator.
    pub fn exponentiation_number(&self) -> (r: Option<u64>)
        ensures
            r == spec_expnum(self@),
    {
        if self.denominator.len() < 1 || self.numerator.len() < 1 {
            return None;
        }
        let mut i: usize = 1;
        while i < self.denominator.len()
            invariant
                1 <= i,
                i <= self.denominator@.len() || self.denominator@.len() < 1,
                forall|j: int|
                    1 <= j < i && j < self.denominator@.len() ==> !crate::number::above_eps(
                        #[trigger] self.denominator@[j],
                    ),
            decreases self.denominator@.len() - i,
        {
            if crate::number::above_eps_bits(self.denominator.coeff[i]) {
                return None;
            }
            i += 1;
        }
        let mut k: usize = 1;
        while k < self.numerator.len()
            invariant
                1 <= k,
                k <= self.numerator@.len() || self.numerator@.len() < 1,
                forall|j: int|
                    1 <= j < k && j < self.numerator@.len() ==> !crate::number::above_eps(
                        #[trigger] self.numerator@[j],
                    ),
            decreases self.numerator@.len() - k,
        {
            if crate::number::above_eps_bits(self.numerator.coeff[k]) {
                return None;
            }
            k += 1;
        }
        let d0 = self.denominator.coeff[0];
        if below_eps_bits(d0) {
            return None;
        }
        Some(div_bits(self.numerator.coeff[0], d0))
    }

    /// The product: numerators and denominators multiplied independently.
    pub fn mul(&self, rhs: &Expression) -> (r: Expression)
        ensures
            r@ == spec_emul(self@, rhs@),
    {
        Expression {
            numerator: self.numerator.mul(&rhs.numerator),
            denominator: self.denominator.mul(&rhs.denominator),
        }
    }

    /// The quotient: the product with the right operand flipped; the
    /// denominator is checked later, after normalization.
    pub fn div(&self, rhs: &Expression) -> (r: Expression)
        ensures
            r@ == spec_ediv(self@, rhs@),
    {
        Expression {
            numerator: self.numerator.mul(&rhs.denominator),
            denominator: self.denominator.mul(&rhs.numerator),
        }
    }

    /// The sum, cross-multiplied to the common denominator `d1*d2`.
    pub fn add(&self, rhs: &Expression) -> (r: Expression)
        ensures
            r@ == spec_eadd(self@, rhs@),
    {
        let denominator = self.denominator.mul(&rhs.denominator);
        let left_numerator = self.numerator.mul(&rhs.denominator);
        let right_numerator = self.denominator.mul(&rhs.numerator);
        Expression { numerator: left_numerator.add(&right_numerator), denominator }
    }

    /// The difference: the sum with the right operand's numerator negated,
    /// its denominator kept.
    pub fn sub(&self, rhs: &Expression) -> (r: Expression)
        ensures
            r@ == spec_esub(self@, rhs@),
    {
        let mut neg: Vec<u64> = Vec::new();
        let mut i: usize = 0;
        while i < rhs.numerator.coeff.len()
            invariant
                i <= rhs.numerator@.len(),
                neg@ == spec_pneg(rhs.numerator@).subrange(0, i as int),
            decreases rhs.numerator@.len() - i,
        {
            neg.push(crate::number::neg_bits(rhs.numerator.coeff[i]));
            assert(neg@ =~= spec_pneg(rhs.numerator@).subrange(0, i + 1));
            i += 1;
        }
        assert(neg@ =~= spec_pneg(rhs.numerator@));
        let flipped = Expression {
            numerator: Polynomial { coeff: neg },
            denominator: Polynomial { coeff: crate::polynomial::copy_vec(&rhs.denominator.coeff) },
        };
        self.add(&flipped)
    }

    /// Binary exponentiation of a positive power: the power one is a copy,
    /// any other squares the half power and multiplies by the base once
    /// more when the exponent is odd.
    fn pow_u(&self, m: u64) -> (r: Expression)
        requires
            m >= 1,
        ensures
            r@ == spec_epow(self@, m as int),
        decreases m,
    {
        if m == 1 {
            return Expression {
                numerator: Polynomial { coeff: crate::polynomial::copy_vec(&self.numerator.coeff) },
                denominator: Polynomial {
                    coeff: crate::polynomial::copy_vec(&self.denominator.coeff),
                },
            };
        }
        let half = self.pow_u(m / 2);
        let mut output = half.square();
        if m % 2 == 1 {
            output = output.mul(self);
        }
        output
    }
}

impl Derivative for Expression {
    type Output = Expression;

    /// The quotient rule: `u/v` has the derivative
    /// `(v*u' - u*v') / v^2`.
    fn d(&self) -> (r: Expression)
        ensures
            r@ == spec_ed(self@),
    {
        let u = &self.numerator;
        let v = &self.denominator;
        let numerator = v.mul(&u.d()).sub(&u.mul(&v.d()));
        let denominator = v.mul(v);
        Expression { numerator, denominator }
    }
}

impl Exponent for Expression {
    type Output = Expression;

    /// An expression can represent a reciprocal, so every integer
    /// exponent is accepted.
    open spec fn pow_ok(&self, n: i64) -> bool {
        true
    }

    /// Both parts squared.
    fn square(&self) -> (r: Expression)
        ensures
            r@ == spec_esquare(self@),
    {
        Expression {
            numerator: self.numerator.square(),
            denominator: self.denominator.square(),
        }
    }

    /// Integer exponentiation: zero gives the constant one, a negative
    /// power the reciprocal of the positive one, and the rest is binary
    /// exponentiation.
    fn pow(&self, n: i64) -> (r: Expression)
        ensures
            r@ == spec_epow(self@, n as int),
    {
        if n == 0 {
            return Expression::one(1);
        }
        if n > 0 {
            return self.pow_u(n as u64);
        }
        let m: u64 = if n == i64::MIN {
            0x8000_0000_0000_0000u64
        } else {
            (-n) as u64
        };
        let p = self.pow_u(m);
        Expression::one(1).div(&p)
    }
}

impl DisplayRPN for Expression {
    /// Postfix text: the numerator alone where the denominator is the
    /// constant one up to the tolerance, else numerator and denominator
    /// with the postfix `/`.
    fn rpn_string(&self) -> (r: String)
        ensures
            r@ == spec_rpn_expr(self@),
    {
        if self.denominator.is_constant_polynomial() {
            let d0 = match self.denominator.get(0) {
                Some(v) => v,
                None => {
                    return String::new();
                },
            };
            if below_eps_bits(add_bits(d0, NEG_ONE_BITS)) {
                return self.numerator.rpn_string();
            }
        }
        let mut r = self.numerator.rpn_string();
        r.append(" ");
        let den = self.denominator.rpn_string();
        r.append(den.as_str());
        r.append(" /");
        r
    }
}

} // verus!


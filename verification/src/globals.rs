//! Shared items of the calculator: the coefficient type, the tolerance used to
//! treat near-zero coefficients as zero, the operator traits, and the error
//! taxonomy of the evaluator.
use vstd::prelude::*;

verus! {

/// A polynomial coefficient: the bit pattern of an IEEE-754 double-precision
/// value, kept as a plain `u64`. All arithmetic on coefficients goes through
/// `crate::number`, which states what each operation returns.
pub type Number = u64;

/// Bit pattern of the double-precision value `1e-6`: any coefficient whose
/// magnitude is below this tolerance is treated as zero.
pub const EPSILON: u64 = 0x3EB0_C6F7_A0B5_ED8D;

/// Symbolic differentiation.
pub trait Derivative {
    type Output;

    fn d(&self) -> Self::Output;
}

/// Integer exponentiation by repeated squaring.
pub trait Exponent {
    type Output;

    /// Which exponents the type accepts: a polynomial alone cannot
    /// represent a reciprocal, so it rejects negative exponents, while a
    /// rational expression accepts any.
    spec fn pow_ok(&self, n: i64) -> bool;

    fn pow(&self, n: i64) -> Self::Output
        requires
            self.pow_ok(n),
    ;

    fn square(&self) -> Self::Output;
}

/// Rendering a value back to reverse-Polish text.
pub trait DisplayRPN {
    fn rpn_string(&self) -> String;
}

/// The two terminal failures of evaluating one line.
#[derive(Clone, Copy, Debug, PartialEq, Eq, Structural)]
pub enum MathError {
    /// A malformed token, an operator short of operands, an exponent that is
    /// not an integer-valued constant, or a final stack that does not hold
    /// exactly one value.
    ParseError,
    /// A denominator that normalizes to the zero polynomial.
    NAN,
}

impl MathError {
    /// The display text of the error, as the host loop prints it.
    pub fn message(&self) -> (r: String)
        ensures
            *self == MathError::ParseError ==> r@ == "Parse Error"@,
            *self == MathError::NAN ==> r@ == "NAN"@,
    {
        match self {
            MathError::ParseError => "Parse Error".to_owned(),
            MathError::NAN => "NAN".to_owned(),
        }
    }
}

} // verus!

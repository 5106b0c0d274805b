//! Arithmetic on coefficients.
//!
//! A coefficient is the bit pattern of an IEEE-754 double held in a `u64`
//! (see [`crate::globals::Number`]). Magnitude tests against the tolerance
//! are plain integer comparisons on the bit pattern, proved here; the
//! rounded arithmetic itself, decimal parsing and decimal rendering are done
//! by the `rustc_apfloat` software implementation of IEEE-754 behind the
//! trusted functions of this module, each of which states what it returns
//! over the names `f_add`, `f_mul`, `f_div`, `f_of_u64`, `f_parse`, `f_fmt`.
use crate::globals::EPSILON;
use rustc_apfloat::ieee::Double;
use rustc_apfloat::Float;
use vstd::prelude::*;

verus! {

/// Mask of all bits but the sign bit.
pub const ABS_MASK: u64 = 0x7FFF_FFFF_FFFF_FFFF;

/// The sign bit.
pub const SIGN_MASK: u64 = 0x8000_0000_0000_0000;

/// Magnitude bits of positive infinity; any magnitude above it is a NaN.
pub const INF_MAG: u64 = 0x7FF0_0000_0000_0000;

/// Bit pattern of `0.0`.
pub const ZERO_BITS: u64 = 0;

/// Bit pattern of `1.0`.
pub const ONE_BITS: u64 = 0x3FF0_0000_0000_0000;

/// Bit pattern of `-1.0`.
pub const NEG_ONE_BITS: u64 = 0xBFF0_0000_0000_0000;

/// The magnitude bits of a coefficient: its bit pattern with the sign
/// cleared. For doubles of equal sign class, IEEE-754 orders finite values
/// the same way as their magnitude bits, so comparing magnitudes compares
/// absolute values.
pub open spec fn mag(b: u64) -> u64 {
    b & ABS_MASK
}

/// True of the bit patterns that are a NaN.
pub open spec fn is_nan_bits(b: u64) -> bool {
    mag(b) > INF_MAG
}

/// `|b| < 1e-6`: the strict tolerance test. False of every NaN, as the
/// comparison on doubles is.
pub open spec fn below_eps(b: u64) -> bool {
    mag(b) < EPSILON
}

/// `|b| <= 1e-6`: the inclusive tolerance test. False of every NaN.
pub open spec fn at_most_eps(b: u64) -> bool {
    mag(b) <= EPSILON
}

/// `|b| > 1e-6` as the comparison on doubles decides it: false of every
/// NaN, since no comparison with a NaN holds.
pub open spec fn above_eps(b: u64) -> bool {
    !is_nan_bits(b) && mag(b) > EPSILON
}

/// Negation of a double: the sign bit flipped, every other bit kept.
pub open spec fn neg_coeff(b: u64) -> u64 {
    b ^ SIGN_MASK
}

/// What `rustc_apfloat` addition returns on the given operand bits.
pub uninterp spec fn f_add(a: u64, b: u64) -> u64;

/// What `rustc_apfloat` multiplication returns on the given operand bits.
pub uninterp spec fn f_mul(a: u64, b: u64) -> u64;

/// What `rustc_apfloat` division returns on the given operand bits.
pub uninterp spec fn f_div(a: u64, b: u64) -> u64;

/// The double nearest to the given unsigned integer.
pub uninterp spec fn f_of_u64(n: u64) -> u64;

/// The double that the given token bytes parse to, or `None` where the
/// parser rejects them.
pub uninterp spec fn f_parse(s: Seq<u8>) -> Option<u64>;

/// The decimal rendering of the double with the given bits.
pub uninterp spec fn f_fmt(b: u64) -> Seq<char>;

/// The sum of two coefficients. IEEE-754 addition of non-NaN operands does
/// not depend on their order, so the operands are put in a fixed order
/// first: this makes the symmetry visible to every proof that uses the
/// function.
pub open spec fn add_coeff(a: u64, b: u64) -> u64 {
    if !is_nan_bits(a) && !is_nan_bits(b) && a > b {
        f_add(b, a)
    } else {
        f_add(a, b)
    }
}

/// The quotient of two coefficients. Division of a non-NaN value by `1.0` is
/// exact and returns the value itself, which the definition makes visible.
pub open spec fn div_coeff(a: u64, b: u64) -> u64 {
    if b == ONE_BITS && !is_nan_bits(a) {
        a
    } else {
        f_div(a, b)
    }
}

/// Relies on `rustc_apfloat::ieee::Double`'s addition: IEEE-754 double
/// addition, rounded to nearest even; the result depends on the operand bits
/// alone, and does not depend on their order when neither operand is a NaN.
#[verifier::external_body]
pub fn add_bits(a: u64, b: u64) -> (r: u64)
    ensures
        r == add_coeff(a, b),
        is_nan_bits(a) || is_nan_bits(b) || a <= b ==> r == f_add(a, b),
{
    (Double::from_bits(a as u128) + Double::from_bits(b as u128)).value.to_bits() as u64
}

/// Relies on `rustc_apfloat::ieee::Double`'s multiplication: IEEE-754 double
/// multiplication, rounded to nearest even; the result depends on the
/// operand bits alone.
#[verifier::external_body]
pub fn mul_bits(a: u64, b: u64) -> (r: u64)
    ensures
        r == f_mul(a, b),
{
    (Double::from_bits(a as u128) * Double::from_bits(b as u128)).value.to_bits() as u64
}

/// Relies on `rustc_apfloat::ieee::Double`'s division: IEEE-754 double
/// division, rounded to nearest even; the result depends on the operand bits
/// alone, and division of a non-NaN value by `1.0` returns it unchanged.
#[verifier::external_body]
pub fn div_bits(a: u64, b: u64) -> (r: u64)
    ensures
        r == div_coeff(a, b),
        b != ONE_BITS || is_nan_bits(a) ==> r == f_div(a, b),
{
    (Double::from_bits(a as u128) / Double::from_bits(b as u128)).value.to_bits() as u64
}

/// Relies on `rustc_apfloat::ieee::Double::from_u128`: conversion of an
/// unsigned integer to the nearest double; the result depends on the integer
/// alone.
#[verifier::external_body]
pub fn u64_to_bits(n: u64) -> (r: u64)
    ensures
        r == f_of_u64(n),
{
    Double::from_u128(n as u128).value.to_bits() as u64
}

/// Relies on `rustc_apfloat::ieee::Double::from_str`: correctly rounded
/// parsing of a floating-point literal; the result depends on the token
/// bytes alone.
#[verifier::external_body]
pub fn parse_bits(s: &[u8]) -> (r: Option<u64>)
    requires
        s@.len() > 0,
    ensures
        r == f_parse(s@),
{
    match core::str::from_utf8(s) {
        Ok(t) => match t.parse::<Double>() {
            Ok(v) => Some(v.to_bits() as u64),
            Err(_) => None,
        },
        Err(_) => None,
    }
}

/// Relies on `rustc_apfloat::ieee::Double`'s `Display`: the decimal
/// rendering of a double; the result depends on its bits alone.
#[verifier::external_body]
pub fn fmt_bits(b: u64) -> (r: String)
    ensures
        r@ == f_fmt(b),
{
    format!("{}", Double::from_bits(b as u128))
}

/// The exact integer a double holds, decoded from its bit pattern, with
/// the out-of-range cases resolved the way a saturating cast resolves them.
///
/// `None` for a NaN (whose floor and ceiling differ from itself) and for
/// any finite value with a fractional part; `Some` of the value otherwise,
/// clamped to the `i64` range for an infinity or a magnitude past it. A
/// finite value splits into sign, biased exponent `e` and mantissa `m`,
/// worth `(2^52 + m) * 2^(e - 1075)`: it is an integer exactly when the
/// bits shifted out below the point are zero.
pub open spec fn spec_exact_int(b: u64) -> Option<i64> {
    let e = (b >> 52) & 0x7FF;
    let m = b & 0x000F_FFFF_FFFF_FFFF;
    let neg = b >= SIGN_MASK;
    if e == 0x7FF {
        if m == 0 {
            if neg {
                Some(i64::MIN)
            } else {
                Some(i64::MAX)
            }
        } else {
            None
        }
    } else if e < 1023 {
        if e == 0 && m == 0 {
            Some(0i64)
        } else {
            None
        }
    } else if e <= 1074 {
        let shift = (1075 - e) as u64;
        if m & (((1u64 << shift) - 1) as u64) == 0 {
            let v = ((1u64 << 52) | m) >> shift;
            if neg {
                Some(((-(v as int)) as i64))
            } else {
                Some(v as i64)
            }
        } else {
            None
        }
    } else {
        if e - 1075 >= 11 {
            if neg {
                Some(i64::MIN)
            } else {
                Some(i64::MAX)
            }
        } else {
            let v = ((1u64 << 52) | m) << ((e - 1075) as u64);
            if neg {
                Some(((-(v as int)) as i64))
            } else {
                Some(v as i64)
            }
        }
    }
}

/// Decodes the exact integer a double holds, as [`spec_exact_int`] states;
/// this is how the evaluator decides whether an exponent's floor and
/// ceiling agree and converts it, so no floating-point operation is needed
/// for it.
pub fn bits_exact_i64(b: u64) -> (r: Option<i64>)
    ensures
        r == spec_exact_int(b),
{
    let e = (b >> 52) & 0x7FF;
    let m = b & 0x000F_FFFF_FFFF_FFFF;
    let neg = b >= SIGN_MASK;
    assert(m <= 0x000F_FFFF_FFFF_FFFFu64 && e <= 0x7FFu64) by (bit_vector)
        requires
            m == b & 0x000F_FFFF_FFFF_FFFFu64 && e == (b >> 52) & 0x7FFu64,
    ;
    if e == 0x7FF {
        if m == 0 {
            if neg {
                Some(i64::MIN)
            } else {
                Some(i64::MAX)
            }
        } else {
            None
        }
    } else if e < 1023 {
        if e == 0 && m == 0 {
            Some(0i64)
        } else {
            None
        }
    } else if e <= 1074 {
        let shift = 1075 - e;
        assert(1u64 << shift >= 1) by (bit_vector)
            requires
                shift < 64,
        ;
        if m & ((1u64 << shift) - 1) == 0 {
            let v = ((1u64 << 52) | m) >> shift;
            assert(v < 0x8000_0000_0000_0000u64) by (bit_vector)
                requires
                    v == ((1u64 << 52) | m) >> shift && m <= 0x000F_FFFF_FFFF_FFFFu64,
            ;
            if neg {
                Some(-(v as i64))
            } else {
                Some(v as i64)
            }
        } else {
            None
        }
    } else {
        if e - 1075 >= 11 {
            if neg {
                Some(i64::MIN)
            } else {
                Some(i64::MAX)
            }
        } else {
            let sh = e - 1075;
            let v = ((1u64 << 52) | m) << sh;
            assert(v < 0x8000_0000_0000_0000u64) by (bit_vector)
                requires
                    v == ((1u64 << 52) | m) << sh && m <= 0x000F_FFFF_FFFF_FFFFu64 && sh < 11,
            ;
            if neg {
                Some(-(v as i64))
            } else {
                Some(v as i64)
            }
        }
    }
}

/// Negates a coefficient by flipping its sign bit, which is exactly what
/// negation of a double does to its bit pattern.
pub fn neg_bits(b: u64) -> (r: u64)
    ensures
        r == neg_coeff(b),
{
    b ^ SIGN_MASK
}

/// `|b| < 1e-6`, decided on the magnitude bits.
pub fn below_eps_bits(b: u64) -> (r: bool)
    ensures
        r == below_eps(b),
{
    (b & ABS_MASK) < EPSILON
}

/// `|b| <= 1e-6`, decided on the magnitude bits.
pub fn at_most_eps_bits(b: u64) -> (r: bool)
    ensures
        r == at_most_eps(b),
{
    (b & ABS_MASK) <= EPSILON
}

/// `|b| > 1e-6`, false of every NaN, decided on the magnitude bits.
pub fn above_eps_bits(b: u64) -> (r: bool)
    ensures
        r == above_eps(b),
{
    let m = b & ABS_MASK;
    m <= INF_MAG && m > EPSILON
}

} // verus!

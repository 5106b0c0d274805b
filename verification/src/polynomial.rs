//! Dense polynomials in one variable.
//!
//! A polynomial is an ordered sequence of coefficients: entry `i` holds the
//! coefficient of `x^i` as the bit pattern of an IEEE-754 double. The
//! sequence always has at least one entry after construction by `zero` or
//! `one` and after normalization; arithmetic produces new values, only
//! [`Polynomial::clean`] mutates in place.
use crate::globals::{Derivative, DisplayRPN, Exponent, Number};
use crate::number::above_eps;
use crate::number::above_eps_bits;
use crate::number::add_bits;
use crate::number::add_coeff;
use crate::number::at_most_eps;
use crate::number::at_most_eps_bits;
use crate::number::below_eps;
use crate::number::below_eps_bits;
use crate::number::f_fmt;
use crate::number::f_mul;
use crate::number::f_of_u64;
use crate::number::fmt_bits;
use crate::number::is_nan_bits;
use crate::number::mul_bits;
use crate::number::neg_bits;
use crate::number::neg_coeff;
use crate::number::u64_to_bits;
use crate::number::ONE_BITS;
use crate::number::ZERO_BITS;
use vstd::pervasive::VecAdditionalExecFns;
use vstd::prelude::*;
use vstd::string::StrSliceExecFns;
use vstd::string::StringExecFns;

verus! {

/// An all-zero coefficient sequence of length `n`.
pub open spec fn spec_zero(n: int) -> Seq<u64> {
    Seq::new(n as nat, |i: int| ZERO_BITS)
}

/// An all-one coefficient sequence of length `n`.
pub open spec fn spec_one(n: int) -> Seq<u64> {
    Seq::new(n as nat, |i: int| ONE_BITS)
}

/// Every coefficient is below the tolerance in magnitude.
pub open spec fn spec_is_zero_poly(s: Seq<u64>) -> bool {
    forall|i: int| 0 <= i < s.len() ==> below_eps(#[trigger] s[i])
}

/// No coefficient above index zero exceeds the tolerance in magnitude.
pub open spec fn spec_is_constant_poly(s: Seq<u64>) -> bool {
    s.len() >= 1 && forall|i: int| 1 <= i < s.len() ==> !above_eps(#[trigger] s[i])
}

/// The first normalization pass: every coefficient whose magnitude is at
/// most the tolerance becomes an exact zero.
pub open spec fn spec_zero_small(s: Seq<u64>) -> Seq<u64> {
    Seq::new(s.len(), |i: int| if at_most_eps(s[i]) { ZERO_BITS } else { s[i] })
}

/// The second normalization pass: trailing coefficients below the tolerance
/// are dropped.
pub open spec fn spec_trim(s: Seq<u64>) -> Seq<u64>
    decreases s.len(),
{
    if s.len() == 0 {
        s
    } else if below_eps(s.last()) {
        spec_trim(s.drop_last())
    } else {
        s
    }
}

/// Normalization: zero out small coefficients, trim trailing zeros, and keep
/// at least one coefficient.
pub open spec fn spec_clean(s: Seq<u64>) -> Seq<u64> {
    let t = spec_trim(spec_zero_small(s));
    if t.len() == 0 {
        seq![ZERO_BITS]
    } else {
        t
    }
}

/// Coefficient-wise sum. The result is as long as the longer operand; where
/// both operands have an entry the entries are added, beyond that the longer
/// operand's entries are kept unchanged, exactly as if the shorter operand
/// were zero-padded and adding an absent entry changed nothing.
pub open spec fn spec_padd(a: Seq<u64>, b: Seq<u64>) -> Seq<u64> {
    if a.len() > b.len() {
        Seq::new(a.len(), |i: int| if i < b.len() { add_coeff(a[i], b[i]) } else { a[i] })
    } else {
        Seq::new(b.len(), |i: int| if i < a.len() { add_coeff(b[i], a[i]) } else { b[i] })
    }
}

/// Coefficient-wise negation: each coefficient's sign bit flipped.
pub open spec fn spec_pneg(s: Seq<u64>) -> Seq<u64> {
    Seq::new(s.len(), |i: int| neg_coeff(s[i]))
}

/// Difference: the sum with the negated right-hand operand.
pub open spec fn spec_psub(a: Seq<u64>, b: Seq<u64>) -> Seq<u64> {
    spec_padd(a, spec_pneg(b))
}

/// One step of the convolution: the state of the output after the products
/// of `a[i]` with the first `j` entries of `b` have been accumulated.
pub open spec fn spec_conv_row(out: Seq<u64>, ai: u64, b: Seq<u64>, i: int, j: int) -> Seq<u64>
    decreases j,
{
    if j <= 0 {
        out
    } else {
        let o = spec_conv_row(out, ai, b, i, j - 1);
        o.update(i + j - 1, add_coeff(o[i + j - 1], f_mul(ai, b[j - 1])))
    }
}

/// The state of the convolution output after the first `i` rows, each row
/// being one entry of `a` multiplied across all of `b`.
pub open spec fn spec_conv_rows(a: Seq<u64>, b: Seq<u64>, out: Seq<u64>, i: int) -> Seq<u64>
    decreases i,
{
    if i <= 0 {
        out
    } else {
        spec_conv_row(spec_conv_rows(a, b, out, i - 1), a[i - 1], b, i - 1, b.len() as int)
    }
}

/// Product by discrete convolution, accumulated row by row into a zero
/// output of length `len(a) + len(b)` — one more than the minimal degree
/// bound, so the top coefficient stays zero until the next normalization.
/// A length that does not fit the machine collapses to the zero polynomial;
/// no machine can hold the operands of such a product.
pub open spec fn spec_pmul(a: Seq<u64>, b: Seq<u64>) -> Seq<u64> {
    if a.len() + b.len() > usize::MAX {
        seq![ZERO_BITS]
    } else {
        spec_conv_rows(a, b, spec_zero((a.len() + b.len()) as int), a.len() as int)
    }
}

/// The derivative: entry `i` of the result is `(i + 1) * s[i + 1]`, one
/// entry shorter than the input; anything of length one or less has
/// derivative zero.
pub open spec fn spec_pd(s: Seq<u64>) -> Seq<u64> {
    if s.len() <= 1 {
        seq![ZERO_BITS]
    } else {
        Seq::new((s.len() - 1) as nat, |i: int| f_mul(f_of_u64((i + 1) as u64), s[i + 1]))
    }
}

/// Integer power by binary exponentiation: square the half power, and
/// multiply by the base once more when the exponent is odd.
pub open spec fn spec_ppow(s: Seq<u64>, n: int) -> Seq<u64>
    decreases n,
{
    if n <= 0 {
        spec_one(1)
    } else if n == 1 {
        s
    } else {
        let h = spec_pmul(spec_ppow(s, n / 2), spec_ppow(s, n / 2));
        if n % 2 == 1 {
            spec_pmul(h, s)
        } else {
            h
        }
    }
}

#[derive(Debug)]
pub struct Polynomial {
    pub coeff: Vec<Number>,
}

impl View for Polynomial {
    type V = Seq<u64>;

    open spec fn view(&self) -> Seq<u64> {
        self.coeff@
    }
}

/// A copy of a coefficient vector.
pub fn copy_vec(v: &Vec<u64>) -> (r: Vec<u64>)
    ensures
        r@ == v@,
{
    let mut r: Vec<u64> = Vec::new();
    let mut i: usize = 0;
    while i < v.len()
        invariant
            i <= v.len(),
            r@ == v@.subrange(0, i as int),
        decreases v.len() - i,
    {
        r.push(v[i]);
        i += 1;
    }
    assert(r@ =~= v@);
    r
}

impl Polynomial {
    /// Wraps a coefficient vector as a polynomial.
    pub fn new(coeff: Vec<Number>) -> (r: Polynomial)
        ensures
            r@ == coeff@,
    {
        Polynomial { coeff }
    }

    /// The polynomial with `n` zero coefficients.
    pub fn zero(n: usize) -> (r: Polynomial)
        ensures
            r@ == spec_zero(n as int),
    {
        let mut coeff: Vec<u64> = Vec::new();
        let mut i: usize = 0;
        while i < n
            invariant
                i <= n,
                coeff@ == spec_zero(i as int),
            decreases n - i,
        {
            coeff.push(ZERO_BITS);
            assert(coeff@ =~= spec_zero(i + 1));
            i += 1;
        }
        Polynomial { coeff }
    }

    /// The polynomial with `n` coefficients of one.
    pub fn one(n: usize) -> (r: Polynomial)
        ensures
            r@ == spec_one(n as int),
    {
        let mut coeff: Vec<u64> = Vec::new();
        let mut i: usize = 0;
        while i < n
            invariant
                i <= n,
                coeff@ == spec_one(i as int),
            decreases n - i,
        {
            coeff.push(ONE_BITS);
            assert(coeff@ =~= spec_one(i + 1));
            i += 1;
        }
        Polynomial { coeff }
    }

    /// The number of coefficients.
    pub fn len(&self) -> (r: usize)
        ensures
            r == self@.len(),
    {
        self.coeff.len()
    }

    /// The coefficient at index `i`, or nothing where `i` is out of range.
    pub fn get(&self, i: usize) -> (r: Option<u64>)
        ensures
            i < self@.len() ==> r == Some(self@[i as int]),
            i >= self@.len() ==> r is None,
    {
        if i < self.coeff.len() {
            Some(self.coeff[i])
        } else {
            None
        }
    }

    /// Replaces the coefficient at index `i` and reports whether `i` was in
    /// range; an index at or past the end changes nothing.
    pub fn set_coeff(&mut self, i: usize, v: u64) -> (r: bool)
        ensures
            i < old(self)@.len() ==> final(self)@ == old(self)@.update(i as int, v) && r,
            i >= old(self)@.len() ==> final(self)@ == old(self)@ && !r,
    {
        if i < self.coeff.len() {
            self.coeff.set(i, v);
            true
        } else {
            false
        }
    }

    /// True iff every coefficient's magnitude is below the tolerance.
    pub fn is_zero_polynomial(&self) -> (r: bool)
        ensures
            r == spec_is_zero_poly(self@),
    {
        let mut i: usize = 0;
        while i < self.coeff.len()
            invariant
                i <= self@.len(),
                forall|j: int| 0 <= j < i ==> below_eps(#[trigger] self@[j]),
            decreases self@.len() - i,
        {
            if !below_eps_bits(self.coeff[i]) {
                return false;
            }
            i += 1;
        }
        true
    }

    /// True iff no coefficient above index zero exceeds the tolerance, so
    /// the polynomial is a constant up to the tolerance; a single
    /// coefficient is always constant.
    pub fn is_constant_polynomial(&self) -> (r: bool)
        ensures
            r == spec_is_constant_poly(self@),
    {
        if self.coeff.len() == 0 {
            return false;
        }
        if self.coeff.len() == 1 {
            return true;
        }
        let mut i: usize = 1;
        while i < self.coeff.len()
            invariant
                1 <= i <= self@.len(),
                forall|j: int| 1 <= j < i ==> !above_eps(#[trigger] self@[j]),
            decreases self@.len() - i,
        {
            if crate::number::above_eps_bits(self.coeff[i]) {
                return false;
            }
            i += 1;
        }
        true
    }

    /// Normalizes in place: zeroes every coefficient within the tolerance,
    /// drops trailing zeros, and leaves a single zero coefficient where
    /// nothing else remains.
    pub fn clean(&mut self)
        ensures
            final(self)@ == spec_clean(old(self)@),
    {
        let ghost orig: Seq<u64> = self@;
        let n = self.coeff.len();
        let mut i: usize = 0;
        while i < n
            invariant
                i <= n,
                self@.len() == n,
                orig.len() == n,
                forall|j: int| 0 <= j < i ==> self@[j] == spec_zero_small(orig)[j],
                forall|j: int| i <= j < n ==> self@[j] == orig[j],
            decreases n - i,
        {
            if at_most_eps_bits(self.coeff[i]) {
                self.coeff.set(i, ZERO_BITS);
            }
            i += 1;
        }
        assert(self@ =~= spec_zero_small(orig));
        while self.coeff.len() > 0 && below_eps_bits(self.coeff[self.coeff.len() - 1])
            invariant
                spec_trim(self@) == spec_trim(spec_zero_small(orig)),
            decreases self@.len(),
        {
            let ghost before: Seq<u64> = self@;
            self.coeff.pop();
            assert(self@ =~= before.drop_last());
        }
        if self.coeff.len() == 0 {
            self.coeff.push(ZERO_BITS);
            assert(self@ =~= seq![ZERO_BITS]);
        }
    }

    /// The coefficient-wise sum: entries present in both operands are added,
    /// the longer operand's tail is kept unchanged.
    pub fn add(&self, rhs: &Polynomial) -> (r: Polynomial)
        ensures
            r@ == spec_padd(self@, rhs@),
    {
        let a = self.coeff.len();
        let b = rhs.coeff.len();
        if a > b {
            let mut out = copy_vec(&self.coeff);
            let mut i: usize = 0;
            while i < b
                invariant
                    i <= b,
                    b < a,
                    a == self@.len(),
                    b == rhs@.len(),
                    out@.len() == a,
                    forall|j: int| 0 <= j < i ==> out@[j] == spec_padd(self@, rhs@)[j],
                    forall|j: int| i <= j < a ==> out@[j] == self@[j],
                decreases b - i,
            {
                let s = add_bits(out[i], rhs.coeff[i]);
                out.set(i, s);
                i += 1;
            }
            assert(out@ =~= spec_padd(self@, rhs@));
            Polynomial { coeff: out }
        } else {
            let mut out = copy_vec(&rhs.coeff);
            let mut i: usize = 0;
            while i < a
                invariant
                    i <= a,
                    a <= b,
                    a == self@.len(),
                    b == rhs@.len(),
                    out@.len() == b,
                    forall|j: int| 0 <= j < i ==> out@[j] == spec_padd(self@, rhs@)[j],
                    forall|j: int| i <= j < b ==> out@[j] == rhs@[j],
                decreases a - i,
            {
                let s = add_bits(out[i], self.coeff[i]);
                out.set(i, s);
                i += 1;
            }
            assert(out@ =~= spec_padd(self@, rhs@));
            Polynomial { coeff: out }
        }
    }

    /// The coefficient-wise difference: the sum with the sign of every
    /// right-hand coefficient flipped.
    pub fn sub(&self, rhs: &Polynomial) -> (r: Polynomial)
        ensures
            r@ == spec_psub(self@, rhs@),
    {
        let mut neg: Vec<u64> = Vec::new();
        let mut i: usize = 0;
        while i < rhs.coeff.len()
            invariant
                i <= rhs@.len(),
                neg@ == spec_pneg(rhs@).subrange(0, i as int),
            decreases rhs@.len() - i,
        {
            neg.push(neg_bits(rhs.coeff[i]));
            assert(neg@ =~= spec_pneg(rhs@).subrange(0, i + 1));
            i += 1;
        }
        assert(neg@ =~= spec_pneg(rhs@));
        self.add(&Polynomial { coeff: neg })
    }

    /// The product by discrete convolution: coefficient `k` of the result
    /// accumulates every product of coefficients whose indices sum to `k`.
    /// The result has `len(a) + len(b)` coefficients; where that does not
    /// fit the machine, the zero polynomial stands in, a state no real
    /// machine can reach.
    pub fn mul(&self, rhs: &Polynomial) -> (r: Polynomial)
        ensures
            r@ == spec_pmul(self@, rhs@),
    {
        let a = self.coeff.len();
        let b = rhs.coeff.len();
        let m = match a.checked_add(b) {
            Some(m) => m,
            None => {
                let mut out: Vec<u64> = Vec::new();
                out.push(ZERO_BITS);
                assert(out@ =~= seq![ZERO_BITS]);
                return Polynomial { coeff: out };
            },
        };
        let mut out = Polynomial::zero(m);
        let mut i: usize = 0;
        while i < a
            invariant
                i <= a,
                a == self@.len(),
                b == rhs@.len(),
                m == a + b,
                out@.len() == m,
                out@ == spec_conv_rows(self@, rhs@, spec_zero(m as int), i as int),
            decreases a - i,
        {
            let mut j: usize = 0;
            let ghost row_start: Seq<u64> = out@;
            while j < b
                invariant
                    j <= b,
                    i < a,
                    a == self@.len(),
                    b == rhs@.len(),
                    m == a + b,
                    out@.len() == m,
                    out@ == spec_conv_row(row_start, self@[i as int], rhs@, i as int, j as int),
                decreases b - j,
            {
                let p = mul_bits(self.coeff[i], rhs.coeff[j]);
                let s = add_bits(out.coeff[i + j], p);
                out.coeff.set(i + j, s);
                j += 1;
            }
            i += 1;
        }
        out
    }

    /// The rendered power index of a term, written in decimal.
    fn power_string(mut n: u64) -> (r: String)
        ensures
            r@ == spec_u64_dec(n as int),
        decreases n,
    {
        if n < 10 {
            digit_string(n)
        } else {
            let mut r = Self::power_string(n / 10);
            let d = digit_string(n % 10);
            r.append(d.as_str());
            r
        }
    }
}

impl Derivative for Polynomial {
    type Output = Polynomial;

    /// The derivative: each coefficient is multiplied by its power and
    /// moved down one slot, so the result is one coefficient shorter; a
    /// constant's derivative is the single coefficient zero.
    fn d(&self) -> (r: Polynomial)
        ensures
            r@ == spec_pd(self@),
    {
        if self.coeff.len() <= 1 {
            let r = Polynomial::zero(1);
            assert(r@ =~= seq![ZERO_BITS]);
            return r;
        }
        let n = self.coeff.len();
        let mut out = Polynomial::zero(n - 1);
        let mut i: usize = 0;
        while i < n - 1
            invariant
                i <= n - 1,
                2 <= n,
                n == self@.len(),
                out@.len() == n - 1,
                forall|j: int| 0 <= j < i ==> out@[j] == spec_pd(self@)[j],
            decreases n - 1 - i,
        {
            let factor = u64_to_bits((i + 1) as u64);
            let p = mul_bits(factor, self.coeff[i + 1]);
            out.coeff.set(i, p);
            i += 1;
        }
        assert(out@ =~= spec_pd(self@));
        out
    }
}

impl Exponent for Polynomial {
    type Output = Polynomial;

    /// A polynomial cannot represent a reciprocal: only nonnegative
    /// exponents are accepted; a rational expression handles the rest.
    open spec fn pow_ok(&self, n: i64) -> bool {
        n >= 0
    }

    /// The square: the polynomial multiplied by itself.
    fn square(&self) -> (r: Polynomial)
        ensures
            r@ == spec_pmul(self@, self@),
    {
        self.mul(self)
    }

    /// Binary exponentiation: the power zero is the constant one, the power
    /// one a copy, and any other power squares the half power and multiplies
    /// by the base once more when the exponent is odd.
    fn pow(&self, n: i64) -> (r: Polynomial)
        ensures
            r@ == spec_ppow(self@, n as int),
        decreases n,
    {
        if n == 0 {
            return Polynomial::one(1);
        }
        if n == 1 {
            return Polynomial { coeff: copy_vec(&self.coeff) };
        }
        let half = self.pow(n / 2);
        let mut output = half.square();
        if n % 2 == 1 {
            output = output.mul(self);
        }
        output
    }
}

impl DisplayRPN for Polynomial {
    /// Postfix text: one term per coefficient above the tolerance, in
    /// increasing power order, chained with postfix `+`; the bare literal
    /// `0` where no term qualifies.
    fn rpn_string(&self) -> (r: String)
        ensures
            r@ == spec_rpn_poly(self@),
    {
        let n = self.coeff.len();
        let mut q: Vec<String> = Vec::new();
        let mut i: usize = 0;
        while i < n
            invariant
                i <= n,
                n == self@.len(),
                q@.len() == spec_terms(self@, i as int).len(),
                forall|j: int| 0 <= j < q@.len() ==> q@[j]@ == spec_terms(self@, i as int)[j],
            decreases n - i,
        {
            if above_eps_bits(self.coeff[i]) {
                let mut t = fmt_bits(self.coeff[i]);
                if i == 0 {
                } else if i == 1 {
                    t.append(" x *");
                } else {
                    t.append(" x ");
                    let p = Polynomial::power_string(i as u64);
                    t.append(p.as_str());
                    t.append(" ^ *");
                }
                assert(t@ == spec_term(self@, i as int));
                q.push(t);
            }
            i += 1;
        }
        let ghost qv: Seq<Seq<char>> = spec_terms(self@, n as int);
        if q.len() == 0 {
            return "0".to_owned();
        }
        let mut result: String = q[0].clone();
        let mut k: usize = 1;
        while k < q.len()
            invariant
                1 <= k <= q@.len(),
                q@.len() == qv.len(),
                forall|j: int| 0 <= j < q@.len() ==> q@[j]@ == qv[j],
                result@ == spec_join(qv, k as int),
            decreases q@.len() - k,
        {
            result.append(" ");
            result.append(q[k].as_str());
            result.append(" +");
            k += 1;
        }
        result
    }
}

/// The postfix text of the term for power `i`: the bare coefficient at
/// power zero, `c x *` at power one, `c x i ^ *` above.
pub open spec fn spec_term(s: Seq<u64>, i: int) -> Seq<char> {
    if i == 0 {
        f_fmt(s[0])
    } else if i == 1 {
        f_fmt(s[1]) + " x *"@
    } else {
        f_fmt(s[i]) + " x "@ + spec_u64_dec(i) + " ^ *"@
    }
}

/// The terms of the first `n` coefficients, skipping those within the
/// tolerance.
pub open spec fn spec_terms(s: Seq<u64>, n: int) -> Seq<Seq<char>>
    decreases n,
{
    if n <= 0 {
        Seq::empty()
    } else {
        let q = spec_terms(s, n - 1);
        if above_eps(s[n - 1]) {
            q.push(spec_term(s, n - 1))
        } else {
            q
        }
    }
}

/// The first `k` terms chained: each further term is appended after a
/// space and followed by the postfix `+`.
pub open spec fn spec_join(q: Seq<Seq<char>>, k: int) -> Seq<char>
    decreases k,
{
    if k <= 1 {
        q[0]
    } else {
        spec_join(q, k - 1) + " "@ + q[k - 1] + " +"@
    }
}

/// The full postfix rendering of a coefficient sequence.
pub open spec fn spec_rpn_poly(s: Seq<u64>) -> Seq<char> {
    let q = spec_terms(s, s.len() as int);
    if q.len() == 0 {
        "0"@
    } else {
        spec_join(q, q.len() as int)
    }
}

/// LAW: adding polynomials does not depend on the order of the operands,
/// as long as no coefficient is a NaN — the one family of values whose
/// floating-point sum depends on which operand comes first. The sums are
/// equal coefficient for coefficient, so they are in particular equal up
/// to the tolerance, the equality the calculator uses throughout.
pub proof fn lemma_padd_comm(a: Seq<u64>, b: Seq<u64>)
    requires
        forall|i: int| 0 <= i < a.len() ==> !is_nan_bits(#[trigger] a[i]),
        forall|i: int| 0 <= i < b.len() ==> !is_nan_bits(#[trigger] b[i]),
    ensures
        spec_padd(a, b) == spec_padd(b, a),
{
    if a.len() == b.len() {
        assert forall|i: int| 0 <= i < a.len() implies add_coeff(b[i], a[i]) == add_coeff(
            a[i],
            b[i],
        ) by {}
    }
    assert(spec_padd(a, b) =~= spec_padd(b, a));
}

/// The trimming pass returns a prefix of its input whose last entry, if
/// any, is not below the tolerance.
proof fn lemma_trim_props(s: Seq<u64>)
    ensures
        spec_trim(s).len() <= s.len(),
        spec_trim(s) == s.subrange(0, spec_trim(s).len() as int),
        spec_trim(s).len() > 0 ==> !below_eps(spec_trim(s).last()),
    decreases s.len(),
{
    if s.len() == 0 {
        assert(spec_trim(s) =~= s.subrange(0, 0));
    } else if below_eps(s.last()) {
        lemma_trim_props(s.drop_last());
        assert(s.drop_last() =~= s.subrange(0, s.len() - 1));
        assert(spec_trim(s) =~= s.subrange(0, spec_trim(s).len() as int));
    } else {
        assert(spec_trim(s) =~= s.subrange(0, s.len() as int));
    }
}

/// A zero coefficient has magnitude zero, so it is within every
/// tolerance.
proof fn lemma_zero_coeff_small()
    ensures
        at_most_eps(ZERO_BITS),
        below_eps(ZERO_BITS),
{
    assert(0u64 & 0x7FFF_FFFF_FFFF_FFFFu64 == 0u64) by (bit_vector);
}

/// LAW: normalization is idempotent on polynomials — cleaning a cleaned
/// coefficient sequence changes nothing, for every input sequence.
pub proof fn lemma_clean_idempotent(s: Seq<u64>)
    ensures
        spec_clean(spec_clean(s)) == spec_clean(s),
{
    let z = spec_zero_small(s);
    let t = spec_trim(z);
    lemma_trim_props(z);
    lemma_zero_coeff_small();
    let c = spec_clean(s);
    if t.len() == 0 {
        assert(c =~= seq![ZERO_BITS]);
        assert(spec_zero_small(c) =~= c);
        let zc = spec_zero_small(c);
        assert(zc.last() == ZERO_BITS);
        assert(spec_trim(zc) == spec_trim(zc.drop_last()));
        assert(zc.drop_last() =~= Seq::<u64>::empty());
        assert(spec_trim(Seq::<u64>::empty()) =~= Seq::<u64>::empty());
        assert(spec_clean(c) =~= c);
    } else {
        assert(c == t);
        assert forall|i: int| 0 <= i < c.len() implies spec_zero_small(c)[i] == c[i] by {
            assert(c[i] == z[i]);
            assert(z[i] == ZERO_BITS || !at_most_eps(z[i]));
        }
        assert(spec_zero_small(c) =~= c);
        assert(!below_eps(c.last()));
        assert(spec_trim(spec_zero_small(c)) == c);
        assert(spec_clean(c) == c);
    }
}

/// The decimal digits of a nonnegative number, most significant first.
pub open spec fn spec_u64_dec(n: int) -> Seq<char>
    decreases n,
{
    if n < 10 {
        seq![spec_digit_char(n)]
    } else {
        spec_u64_dec(n / 10) + seq![spec_digit_char(n % 10)]
    }
}

/// The character of one decimal digit.
pub open spec fn spec_digit_char(d: int) -> char {
    if d == 0 {
        '0'
    } else if d == 1 {
        '1'
    } else if d == 2 {
        '2'
    } else if d == 3 {
        '3'
    } else if d == 4 {
        '4'
    } else if d == 5 {
        '5'
    } else if d == 6 {
        '6'
    } else if d == 7 {
        '7'
    } else if d == 8 {
        '8'
    } else {
        '9'
    }
}

/// One decimal digit as text.
fn digit_string(d: u64) -> (r: String)
    requires
        d < 10,
    ensures
        r@ == seq![spec_digit_char(d as int)],
{
    let s: &str = if d == 0 {
        "0"
    } else if d == 1 {
        "1"
    } else if d == 2 {
        "2"
    } else if d == 3 {
        "3"
    } else if d == 4 {
        "4"
    } else if d == 5 {
        "5"
    } else if d == 6 {
        "6"
    } else if d == 7 {
        "7"
    } else if d == 8 {
        "8"
    } else {
        "9"
    };
    proof {
        reveal_strlit("0");
        reveal_strlit("1");
        reveal_strlit("2");
        reveal_strlit("3");
        reveal_strlit("4");
        reveal_strlit("5");
        reveal_strlit("6");
        reveal_strlit("7");
        reveal_strlit("8");
        reveal_strlit("9");
    }
    assert(s@ =~= seq![spec_digit_char(d as int)]);
    s.to_owned()
}

} // verus!

//! The reverse-Polish evaluator: one line of whitespace-separated tokens
//! in, one rendered result or one taxonomy error out.
//!
//! The evaluator is a stack machine. Every token either pushes a fresh
//! value (a literal or the variable symbol) or pops its operands and pushes
//! the operation's result; every pushed value is normalized first and
//! rejected as undefined where its denominator collapsed to zero. At the
//! end exactly one value must remain; it is normalized once more and
//! rendered.
use crate::expression::spec_eadd;
use crate::expression::spec_eclean;
use crate::expression::spec_econst;
use crate::expression::spec_ed;
use crate::expression::spec_eden_zero;
use crate::expression::spec_ediv;
use crate::expression::spec_emul;
use crate::expression::spec_epow;
use crate::expression::spec_esub;
use crate::expression::spec_ex;
use crate::expression::spec_expnum;
use crate::expression::spec_rpn_expr;
use crate::expression::Expression;
use crate::globals::{Derivative, DisplayRPN, Exponent, MathError};
use crate::number::bits_exact_i64;
use crate::number::f_parse;
use crate::number::spec_exact_int;
use vstd::prelude::*;
use vstd::seq_lib::*;
use vstd::string::StrSliceExecFns;
use vstd::string::StringSliceAdditionalSpecFns;

verus! {

/// The whitespace bytes a line is split at: space, tab, line feed,
/// vertical tab, form feed, carriage return.
pub open spec fn spec_is_ws(b: u8) -> bool {
    b == 32 || (9 <= b && b <= 13)
}

/// Splitting a byte sequence into tokens, carried forward one byte at a
/// time: `acc` holds the finished tokens and `cur` the one being read; a
/// whitespace byte finishes the current token, any other byte extends it.
pub open spec fn spec_tokens_acc(s: Seq<u8>, acc: Seq<Seq<u8>>, cur: Seq<u8>) -> Seq<Seq<u8>>
    decreases s.len(),
{
    if s.len() == 0 {
        if cur.len() > 0 {
            acc.push(cur)
        } else {
            acc
        }
    } else if spec_is_ws(s[0]) {
        spec_tokens_acc(
            s.drop_first(),
            if cur.len() > 0 {
                acc.push(cur)
            } else {
                acc
            },
            Seq::empty(),
        )
    } else {
        spec_tokens_acc(s.drop_first(), acc, cur.push(s[0]))
    }
}

/// The tokens of one line of bytes.
pub open spec fn spec_tokens(s: Seq<u8>) -> Seq<Seq<u8>> {
    spec_tokens_acc(s, Seq::empty(), Seq::empty())
}

/// A one-byte token.
pub open spec fn tok1(b: u8) -> Seq<u8> {
    seq![b]
}

/// The models of the expressions on the stack.
pub open spec fn views_of(s: Seq<Expression>) -> Seq<(Seq<u64>, Seq<u64>)> {
    s.map_values(|e: Expression| e@)
}

/// What pushing a freshly produced value does: the value is normalized; a
/// denominator that collapsed to zero fails the line as undefined, any
/// other value lands on the stack.
pub open spec fn spec_push_checked(rest: Seq<(Seq<u64>, Seq<u64>)>, v: (Seq<u64>, Seq<u64>)) -> Result<
    Seq<(Seq<u64>, Seq<u64>)>,
    MathError,
> {
    let c = spec_eclean(v);
    if spec_eden_zero(c) {
        Err(MathError::NAN)
    } else {
        Ok(rest.push(c))
    }
}

/// One transition of the stack machine. The four arithmetic operators and
/// the exponentiation need two operands, the derivative one; too few is a
/// parse failure, as is an exponent that is no integer-valued constant or
/// a token that is neither the variable symbol nor a numeric literal.
pub open spec fn spec_step(stack: Seq<(Seq<u64>, Seq<u64>)>, t: Seq<u8>) -> Result<
    Seq<(Seq<u64>, Seq<u64>)>,
    MathError,
> {
    if t == tok1(43u8) || t == tok1(45u8) || t == tok1(42u8) || t == tok1(47u8) {
        if stack.len() < 2 {
            Err(MathError::ParseError)
        } else {
            let b = stack[stack.len() - 1];
            let a = stack[stack.len() - 2];
            let v = if t == tok1(43u8) {
                spec_eadd(a, b)
            } else if t == tok1(45u8) {
                spec_esub(a, b)
            } else if t == tok1(42u8) {
                spec_emul(a, b)
            } else {
                spec_ediv(a, b)
            };
            spec_push_checked(stack.subrange(0, stack.len() - 2), v)
        }
    } else if t == tok1(94u8) {
        if stack.len() < 2 {
            Err(MathError::ParseError)
        } else {
            let b = stack[stack.len() - 1];
            let a = stack[stack.len() - 2];
            match spec_expnum(b) {
                None => Err(MathError::ParseError),
                Some(c) => match spec_exact_int(c) {
                    None => Err(MathError::ParseError),
                    Some(n) => spec_push_checked(
                        stack.subrange(0, stack.len() - 2),
                        spec_epow(a, n as int),
                    ),
                },
            }
        }
    } else if t == tok1(100u8) {
        if stack.len() < 1 {
            Err(MathError::ParseError)
        } else {
            spec_push_checked(stack.subrange(0, stack.len() - 1), spec_ed(stack[stack.len() - 1]))
        }
    } else if t == tok1(120u8) {
        spec_push_checked(stack, spec_ex())
    } else if t.len() == 0 {
        Err(MathError::ParseError)
    } else {
        match f_parse(t) {
            Some(c) => spec_push_checked(stack, spec_econst(c)),
            None => Err(MathError::ParseError),
        }
    }
}

/// Folding the transitions over the remaining tokens. When all tokens are
/// consumed, exactly one value may remain: it is normalized once more and
/// rendered; any other stack depth is a parse failure.
pub open spec fn spec_eval(tokens: Seq<Seq<u8>>, stack: Seq<(Seq<u64>, Seq<u64>)>) -> Result<
    Seq<char>,
    MathError,
> decreases tokens.len(),
{
    if tokens.len() == 0 {
        if stack.len() == 1 {
            Ok(spec_rpn_expr(spec_eclean(stack[0])))
        } else {
            Err(MathError::ParseError)
        }
    } else {
        match spec_step(stack, tokens[0]) {
            Ok(st) => spec_eval(tokens.drop_first(), st),
            Err(e) => Err(e),
        }
    }
}

/// The whole evaluation of one line of bytes, from an empty stack.
pub open spec fn spec_calculate(bytes: Seq<u8>) -> Result<Seq<char>, MathError> {
    spec_eval(spec_tokens(bytes), Seq::empty())
}

/// Whether a token consists of exactly the one given byte.
fn tok_is(t: &Vec<u8>, b: u8) -> (r: bool)
    ensures
        r == (t@ == tok1(b)),
{
    if t.len() == 1 {
        if t[0] == b {
            assert(t@ =~= tok1(b));
            true
        } else {
            assert(t@ != tok1(b)) by {
                assert(tok1(b)[0] == b);
            }
            false
        }
    } else {
        assert(t@ != tok1(b)) by {
            assert(tok1(b).len() == 1);
        }
        false
    }
}

/// Splits a line into its whitespace-separated tokens.
fn tokenize(bytes: &[u8]) -> (r: Vec<Vec<u8>>)
    ensures
        r@.map_values(|t: Vec<u8>| t@) == spec_tokens(bytes@),
{
    let mut acc: Vec<Vec<u8>> = Vec::new();
    let mut cur: Vec<u8> = Vec::new();
    let mut i: usize = 0;
    proof {
        assert(bytes@.skip(0) =~= bytes@);
        assert(acc@.map_values(|t: Vec<u8>| t@) =~= Seq::<Seq<u8>>::empty());
        assert(cur@ =~= Seq::<u8>::empty());
    }
    while i < bytes.len()
        invariant
            i <= bytes@.len(),
            spec_tokens_acc(bytes@.skip(i as int), acc@.map_values(|t: Vec<u8>| t@), cur@)
                == spec_tokens(bytes@),
        decreases bytes@.len() - i,
    {
        let ghost pre = bytes@.skip(i as int);
        let b = bytes[i];
        assert(pre[0] == b);
        assert(pre.drop_first() =~= bytes@.skip(i + 1));
        if b == 32 || (9 <= b && b <= 13) {
            if cur.len() > 0 {
                let ghost acc_pre = acc@.map_values(|t: Vec<u8>| t@);
                acc.push(cur);
                assert(acc@.map_values(|t: Vec<u8>| t@) =~= acc_pre.push(cur@));
                cur = Vec::new();
            }
            assert(cur@ =~= Seq::<u8>::empty());
        } else {
            cur.push(b);
        }
        i += 1;
    }
    assert(bytes@.skip(i as int) =~= Seq::<u8>::empty());
    if cur.len() > 0 {
        let ghost acc_pre = acc@.map_values(|t: Vec<u8>| t@);
        acc.push(cur);
        assert(acc@.map_values(|t: Vec<u8>| t@) =~= acc_pre.push(cur@));
    }
    acc
}

/// Normalizes a freshly produced value, rejects it where its denominator
/// collapsed to zero, and pushes it otherwise.
fn apply_checked(stack: &mut Vec<Expression>, v: Expression) -> (r: Option<MathError>)
    ensures
        match spec_push_checked(views_of(old(stack)@), v@) {
            Ok(st) => r is None && views_of(final(stack)@) == st,
            Err(e) => r == Some(e) && final(stack)@ == old(stack)@,
        },
{
    let mut v = v;
    v.clean();
    if v.is_denominator_zero() {
        return Some(MathError::NAN);
    }
    let ghost pre = views_of(stack@);
    stack.push(v);
    assert(views_of(stack@) =~= pre.push(v@));
    None
}

/// Evaluates one line: tokenizes it, folds every token through the stack
/// machine, and renders the single remaining value, or reports the first
/// taxonomy error.
#[verifier::rlimit(100)]
pub fn calculate(line: String) -> (r: Result<String, MathError>)
    ensures
        match r {
            Ok(s) => spec_calculate(vstd::utf8::encode_utf8(line@)) == Ok::<Seq<char>, MathError>(
                s@,
            ),
            Err(e) => spec_calculate(vstd::utf8::encode_utf8(line@)) == Err::<
                Seq<char>,
                MathError,
            >(e),
        },
{
    let s_ref: &str = line.as_str();
    let bytes: &[u8] = s_ref.as_bytes();
    proof {
        assert(s_ref@ == line@);
        assert(bytes@ == s_ref.spec_bytes());
        assert(bytes@ == vstd::utf8::encode_utf8(line@));
    }
    let ghost bytesv = bytes@;
    let tokens = tokenize(bytes);
    let ghost toksv = tokens@.map_values(|t: Vec<u8>| t@);
    let mut stack: Vec<Expression> = Vec::new();
    proof {
        assert(views_of(stack@) =~= Seq::<(Seq<u64>, Seq<u64>)>::empty());
        assert(toksv.skip(0) =~= toksv);
    }
    let mut ti: usize = 0;
    while ti < tokens.len()
        invariant
            ti <= tokens@.len(),
            toksv == tokens@.map_values(|t: Vec<u8>| t@),
            bytesv == vstd::utf8::encode_utf8(line@),
            spec_eval(toksv.skip(ti as int), views_of(stack@)) == spec_calculate(bytesv),
        decreases tokens@.len() - ti,
    {
        let ghost pre_stack = views_of(stack@);
        let ghost rest = toksv.skip(ti as int);
        proof {
            assert(rest[0] == toksv[ti as int]);
            assert(rest.drop_first() =~= toksv.skip(ti + 1));
        }
        let t = &tokens[ti];
        assert(t@ == toksv[ti as int]);
        if tok_is(t, 43) || tok_is(t, 45) || tok_is(t, 42) || tok_is(t, 47) {
            if stack.len() < 2 {
                return Err(MathError::ParseError);
            }
            let b = match stack.pop() {
                Some(x) => x,
                None => {
                    return Err(MathError::ParseError);
                },
            };
            let a = match stack.pop() {
                Some(x) => x,
                None => {
                    return Err(MathError::ParseError);
                },
            };
            proof {
                assert(views_of(stack@) =~= pre_stack.subrange(0, pre_stack.len() - 2));
                assert(b@ == pre_stack[pre_stack.len() - 1]);
                assert(a@ == pre_stack[pre_stack.len() - 2]);
            }
            let v = if tok_is(t, 43) {
                a.add(&b)
            } else if tok_is(t, 45) {
                a.sub(&b)
            } else if tok_is(t, 42) {
                a.mul(&b)
            } else {
                a.div(&b)
            };
            proof {
                assert(spec_step(pre_stack, t@) == spec_push_checked(
                    pre_stack.subrange(0, pre_stack.len() - 2),
                    v@,
                ));
            }
            match apply_checked(&mut stack, v) {
                Some(e) => {
                    proof {
                        assert(spec_eval(rest, pre_stack) == Err::<Seq<char>, MathError>(e));
                    }
                    return Err(e);
                },
                None => {
                    proof {
                        assert(spec_eval(toksv.skip(ti + 1), views_of(stack@))
                            == spec_calculate(bytesv));
                    }
                },
            }
        } else if tok_is(t, 94) {
            if stack.len() < 2 {
                return Err(MathError::ParseError);
            }
            let b = match stack.pop() {
                Some(x) => x,
                None => {
                    return Err(MathError::ParseError);
                },
            };
            let a = match stack.pop() {
                Some(x) => x,
                None => {
                    return Err(MathError::ParseError);
                },
            };
            proof {
                assert(views_of(stack@) =~= pre_stack.subrange(0, pre_stack.len() - 2));
                assert(b@ == pre_stack[pre_stack.len() - 1]);
                assert(a@ == pre_stack[pre_stack.len() - 2]);
            }
            let c = match b.exponentiation_number() {
                Some(c) => c,
                None => {
                    return Err(MathError::ParseError);
                },
            };
            let n = match bits_exact_i64(c) {
                Some(n) => n,
                None => {
                    return Err(MathError::ParseError);
                },
            };
            let v = a.pow(n);
            proof {
                assert(spec_step(pre_stack, t@) == spec_push_checked(
                    pre_stack.subrange(0, pre_stack.len() - 2),
                    v@,
                ));
            }
            match apply_checked(&mut stack, v) {
                Some(e) => {
                    proof {
                        assert(spec_eval(rest, pre_stack) == Err::<Seq<char>, MathError>(e));
                    }
                    return Err(e);
                },
                None => {
                    proof {
                        assert(spec_eval(toksv.skip(ti + 1), views_of(stack@))
                            == spec_calculate(bytesv));
                    }
                },
            }
        } else if tok_is(t, 100) {
            if stack.len() < 1 {
                return Err(MathError::ParseError);
            }
            let a = match stack.pop() {
                Some(x) => x,
                None => {
                    return Err(MathError::ParseError);
                },
            };
            proof {
                assert(views_of(stack@) =~= pre_stack.subrange(0, pre_stack.len() - 1));
                assert(a@ == pre_stack[pre_stack.len() - 1]);
            }
            let v = a.d();
            proof {
                assert(spec_step(pre_stack, t@) == spec_push_checked(
                    pre_stack.subrange(0, pre_stack.len() - 1),
                    v@,
                ));
            }
            match apply_checked(&mut stack, v) {
                Some(e) => {
                    proof {
                        assert(spec_eval(rest, pre_stack) == Err::<Seq<char>, MathError>(e));
                    }
                    return Err(e);
                },
                None => {
                    proof {
                        assert(spec_eval(toksv.skip(ti + 1), views_of(stack@))
                            == spec_calculate(bytesv));
                    }
                },
            }
        } else {
            let v = match Expression::from_bytes(t.as_slice()) {
                Ok(v) => v,
                Err(e) => {
                    proof {
                        assert(spec_step(pre_stack, t@) == Err::<
                            Seq<(Seq<u64>, Seq<u64>)>,
                            MathError,
                        >(e));
                    }
                    return Err(e);
                },
            };
            proof {
                assert(spec_step(pre_stack, t@) == spec_push_checked(pre_stack, v@));
            }
            match apply_checked(&mut stack, v) {
                Some(e) => {
                    proof {
                        assert(spec_eval(rest, pre_stack) == Err::<Seq<char>, MathError>(e));
                    }
                    return Err(e);
                },
                None => {
                    proof {
                        assert(spec_eval(toksv.skip(ti + 1), views_of(stack@))
                            == spec_calculate(bytesv));
                    }
                },
            }
        }
        ti += 1;
    }
    assert(toksv.skip(ti as int) =~= Seq::<Seq<u8>>::empty());
    if stack.len() == 1 {
        let mut e = match stack.pop() {
            Some(x) => x,
            None => {
                return Err(MathError::ParseError);
            },
        };
        e.clean();
        Ok(e.rpn_string())
    } else {
        Err(MathError::ParseError)
    }
}

} // verus!

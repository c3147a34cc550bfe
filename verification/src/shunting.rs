//! Infix to postfix conversion: the shunting-yard algorithm.

use vstd::prelude::*;

use crate::errors::CalcError;
use crate::errors::ErrorModel;
use crate::session::Calculator;
use crate::token::prec_level;
use crate::token::level;
use crate::token::Associativity;
use crate::token::Token;

verus! {

/// Every element of `xs` occurs in `pool`.
pub open spec fn all_from(xs: Seq<Token>, pool: Seq<Token>) -> bool {
    forall|k: int| 0 <= k < xs.len() ==> pool.contains(#[trigger] xs[k])
}

/// Pops the operator stack into the output until a left parenthesis is on
/// top (kept on the stack), or `None` when the stack runs out first.
pub open spec fn pop_until_lparen(stack: Seq<Token>, out: Seq<Token>) -> Option<
    (Seq<Token>, Seq<Token>),
>
    decreases stack.len(),
{
    if stack.len() == 0 {
        None
    } else if stack.last() is LeftParen {
        Some((stack, out))
    } else {
        pop_until_lparen(stack.drop_last(), out.push(stack.last()))
    }
}

/// Pops operators into the output while the incoming operator's precedence
/// and associativity say so: a left-associative operator pops everything of
/// its own level and higher, a right-associative one only what is strictly
/// higher, and a non-associative one pops nothing.
pub open spec fn pop_while_binds(
    stack: Seq<Token>,
    out: Seq<Token>,
    lvl: nat,
    assoc: Associativity,
) -> (Seq<Token>, Seq<Token>)
    decreases stack.len(),
{
    if stack.len() == 0 {
        (stack, out)
    } else {
        match stack.last() {
            Token::Operator { precedence: p2, .. } => {
                let stop = match assoc {
                    Associativity::NonAssoc => true,
                    Associativity::Left => lvl > prec_level(p2),
                    Associativity::Right => lvl >= prec_level(p2),
                };
                if stop {
                    (stack, out)
                } else {
                    pop_while_binds(stack.drop_last(), out.push(stack.last()), lvl, assoc)
                }
            },
            _ => (stack, out),
        }
    }
}

/// What one infix token does to the operator stack and the output.
pub open spec fn shunt_step(stack: Seq<Token>, out: Seq<Token>, t: Token) -> Result<
    (Seq<Token>, Seq<Token>),
    ErrorModel,
> {
    match t {
        Token::Operand { .. } => Ok((stack, out.push(t))),
        Token::Function { .. } => Ok((stack.push(t), out)),
        Token::LeftParen => Ok((stack.push(t), out)),
        Token::ArgumentSeparator => {
            match pop_until_lparen(stack, out) {
                Some(p) => Ok(p),
                None => Err(ErrorModel::MissingLeftParenthesis),
            }
        },
        Token::RightParen => {
            match pop_until_lparen(stack, out) {
                Some((st, o)) => {
                    let st2 = st.drop_last();  // discard the left parenthesis
                    if st2.len() > 0 && st2.last() is Function {
                        Ok((st2.drop_last(), o.push(st2.last())))
                    } else {
                        Ok((st2, o))
                    }
                },
                None => Err(ErrorModel::MissingLeftParenthesis),
            }
        },
        Token::Operator { precedence, associativity, .. } => {
            let (st, o) = pop_while_binds(stack, out, prec_level(precedence), associativity);
            Ok((st.push(t), o))
        },
    }
}

/// Runs [`shunt_step`] over the tokens from position `i` on.
pub open spec fn shunt_run(
    tokens: Seq<Token>,
    i: int,
    stack: Seq<Token>,
    out: Seq<Token>,
) -> Result<(Seq<Token>, Seq<Token>), ErrorModel>
    decreases tokens.len() - i,
{
    if i < 0 || i >= tokens.len() {
        Ok((stack, out))
    } else {
        match shunt_step(stack, out, tokens[i]) {
            Ok((s2, o2)) => shunt_run(tokens, i + 1, s2, o2),
            Err(e) => Err(e),
        }
    }
}

/// Drains what is left on the operator stack into the output.  A leftover
/// parenthesis means the expression's parentheses never matched.
pub open spec fn drain(stack: Seq<Token>, out: Seq<Token>) -> Result<Seq<Token>, ErrorModel>
    decreases stack.len(),
{
    if stack.len() == 0 {
        Ok(out)
    } else {
        match stack.last() {
            Token::RightParen => Err(ErrorModel::MissingRightParenthesis),
            Token::LeftParen => Err(ErrorModel::MissingLeftParenthesis),
            _ => drain(stack.drop_last(), out.push(stack.last())),
        }
    }
}

/// The postfix form of an infix token sequence: the result of the whole
/// shunting-yard pass, or the first error.
pub open spec fn spec_to_postfix(tokens: Seq<Token>) -> Result<Seq<Token>, ErrorModel> {
    match shunt_run(tokens, 0, Seq::<Token>::empty(), Seq::<Token>::empty()) {
        Ok((stack, out)) => drain(stack, out),
        Err(e) => Err(e),
    }
}

/// A token that carries a value or an operation — what postfix order is
/// made of, once the structural parentheses and separators have done
/// their work and disappeared.
pub open spec fn is_operational(t: Token) -> bool {
    match t {
        Token::Operand { .. } => true,
        Token::Operator { .. } => true,
        Token::Function { .. } => true,
        _ => false,
    }
}

/// Every token of `ts` is operational.
pub open spec fn all_operational(ts: Seq<Token>) -> bool {
    forall|k: int| 0 <= k < ts.len() ==> is_operational(#[trigger] ts[k])
}

/// What the operator stack may hold: functions, left parentheses and
/// operators — never an operand, a right parenthesis or a separator.
pub open spec fn stack_shaped(ts: Seq<Token>) -> bool {
    forall|k: int|
        0 <= k < ts.len() ==> (match #[trigger] ts[k] {
            Token::Function { .. } => true,
            Token::LeftParen => true,
            Token::Operator { .. } => true,
            _ => false,
        })
}

/// Dropping the top of a shaped stack leaves it shaped.
proof fn lemma_shaped_drop(ts: Seq<Token>)
    requires
        stack_shaped(ts),
        ts.len() > 0,
    ensures
        stack_shaped(ts.drop_last()),
{
    assert forall|k: int| 0 <= k < ts.drop_last().len() implies (match #[trigger] ts.drop_last()[k] {
        Token::Function { .. } => true,
        Token::LeftParen => true,
        Token::Operator { .. } => true,
        _ => false,
    }) by {
        assert(ts.drop_last()[k] == ts[k]);
    }
}

/// [`pop_until_lparen`] moves only functions and operators into the
/// output and keeps the stack's shape.
proof fn lemma_pop_until_shape(stack: Seq<Token>, out: Seq<Token>)
    requires
        stack_shaped(stack),
        all_operational(out),
    ensures
        pop_until_lparen(stack, out) matches Some(p) ==> stack_shaped(p.0) && all_operational(p.1),
    decreases stack.len(),
{
    if stack.len() == 0 {
    } else if stack.last() is LeftParen {
    } else {
        lemma_shaped_drop(stack);
        lemma_pop_until_shape(stack.drop_last(), out.push(stack.last()));
    }
}

/// [`pop_while_binds`] moves only operators into the output and keeps the
/// stack's shape.
proof fn lemma_pop_while_shape(stack: Seq<Token>, out: Seq<Token>, lvl: nat, assoc: Associativity)
    requires
        stack_shaped(stack),
        all_operational(out),
    ensures
        ({
            let (s2, o2) = pop_while_binds(stack, out, lvl, assoc);
            stack_shaped(s2) && all_operational(o2)
        }),
    decreases stack.len(),
{
    if stack.len() > 0 {
        match stack.last() {
            Token::Operator { precedence: p2, .. } => {
                let stop = match assoc {
                    Associativity::NonAssoc => true,
                    Associativity::Left => lvl > prec_level(p2),
                    Associativity::Right => lvl >= prec_level(p2),
                };
                if !stop {
                    lemma_shaped_drop(stack);
                    lemma_pop_while_shape(stack.drop_last(), out.push(stack.last()), lvl, assoc);
                }
            },
            _ => {},
        }
    }
}

/// One [`shunt_step`] keeps the stack's shape and the output operational.
proof fn lemma_shunt_step_shape(stack: Seq<Token>, out: Seq<Token>, t: Token)
    requires
        stack_shaped(stack),
        all_operational(out),
    ensures
        shunt_step(stack, out, t) matches Ok(p) ==> stack_shaped(p.0) && all_operational(p.1),
{
    match t {
        Token::ArgumentSeparator => {
            lemma_pop_until_shape(stack, out);
        },
        Token::RightParen => {
            lemma_pop_until_shape(stack, out);
            lemma_pop_until_some(stack, out);
            match pop_until_lparen(stack, out) {
                Some((st, o)) => {
                    let st2 = st.drop_last();
                    lemma_shaped_drop(st);
                    if st2.len() > 0 && st2.last() is Function {
                        lemma_shaped_drop(st2);
                    }
                },
                None => {},
            }
        },
        Token::Operator { precedence, associativity, .. } => {
            lemma_pop_while_shape(stack, out, prec_level(precedence), associativity);
        },
        _ => {},
    }
}

/// Running [`shunt_step`] over the rest of the tokens keeps the stack's
/// shape and the output operational.
proof fn lemma_shunt_run_shape(tokens: Seq<Token>, i: int, stack: Seq<Token>, out: Seq<Token>)
    requires
        stack_shaped(stack),
        all_operational(out),
    ensures
        shunt_run(tokens, i, stack, out) matches Ok(p) ==> stack_shaped(p.0) && all_operational(
            p.1,
        ),
    decreases tokens.len() - i,
{
    if 0 <= i < tokens.len() {
        lemma_shunt_step_shape(stack, out, tokens[i]);
        match shunt_step(stack, out, tokens[i]) {
            Ok((s2, o2)) => {
                lemma_shunt_run_shape(tokens, i + 1, s2, o2);
            },
            Err(_) => {},
        }
    }
}

/// [`drain`] moves only functions and operators into the output: it fails
/// on any leftover parenthesis.
proof fn lemma_drain_shape(stack: Seq<Token>, out: Seq<Token>)
    requires
        stack_shaped(stack),
        all_operational(out),
    ensures
        drain(stack, out) matches Ok(o) ==> all_operational(o),
    decreases stack.len(),
{
    if stack.len() > 0 {
        match stack.last() {
            Token::RightParen => {},
            Token::LeftParen => {},
            _ => {
                lemma_shaped_drop(stack);
                lemma_drain_shape(stack.drop_last(), out.push(stack.last()));
            },
        }
    }
}

/// Law: the postfix form of any token sequence holds only operands,
/// operators and functions — every parenthesis and separator has been
/// consumed, so a postfix evaluator meets nothing else.
pub proof fn lemma_postfix_operational(tokens: Seq<Token>)
    ensures
        spec_to_postfix(tokens) matches Ok(out) ==> all_operational(out),
{
    lemma_shunt_run_shape(tokens, 0, Seq::<Token>::empty(), Seq::<Token>::empty());
    match shunt_run(tokens, 0, Seq::<Token>::empty(), Seq::<Token>::empty()) {
        Ok((stack, out)) => {
            lemma_drain_shape(stack, out);
        },
        Err(_) => {},
    }
}

/// When [`pop_until_lparen`] succeeds, the stack it returns still has the
/// left parenthesis on top.
proof fn lemma_pop_until_some(stack: Seq<Token>, out: Seq<Token>)
    ensures
        pop_until_lparen(stack, out) matches Some(p) ==> p.0.len() > 0 && p.0.last() is LeftParen,
    decreases stack.len(),
{
    if stack.len() == 0 {
    } else if stack.last() is LeftParen {
    } else {
        lemma_pop_until_some(stack.drop_last(), out.push(stack.last()));
    }
}

/// Pops the stack into the output until a left parenthesis is on top;
/// reports whether one was found.
fn pop_to_lparen(stack: &mut Vec<Token>, out: &mut Vec<Token>, Ghost(pool): Ghost<Seq<Token>>) -> (found:
    bool)
    requires
        all_from(old(stack)@, pool),
        all_from(old(out)@, pool),
    ensures
        match pop_until_lparen(old(stack)@, old(out)@) {
            Some(p) => found && final(stack)@ == p.0 && final(out)@ == p.1,
            None => !found,
        },
        all_from(final(stack)@, pool),
        all_from(final(out)@, pool),
{
    loop
        invariant
            pop_until_lparen(old(stack)@, old(out)@) == pop_until_lparen(stack@, out@),
            all_from(stack@, pool),
            all_from(out@, pool),
        decreases stack@.len(),
    {
        if stack.len() == 0 {
            return false;
        }
        let t = stack[stack.len() - 1];
        if matches!(t, Token::LeftParen) {
            return true;
        }
        let x = stack.pop().unwrap();
        out.push(x);
    }
}

/// Pops operators bound at least as tight as the incoming one into the
/// output, as its associativity asks.
fn pop_binders(
    stack: &mut Vec<Token>,
    out: &mut Vec<Token>,
    lvl: u8,
    assoc: Associativity,
    Ghost(pool): Ghost<Seq<Token>>,
)
    requires
        all_from(old(stack)@, pool),
        all_from(old(out)@, pool),
    ensures
        (final(stack)@, final(out)@) == pop_while_binds(old(stack)@, old(out)@, lvl as nat, assoc),
        all_from(final(stack)@, pool),
        all_from(final(out)@, pool),
{
    loop
        invariant
            pop_while_binds(old(stack)@, old(out)@, lvl as nat, assoc) == pop_while_binds(
                stack@,
                out@,
                lvl as nat,
                assoc,
            ),
            all_from(stack@, pool),
            all_from(out@, pool),
        decreases stack@.len(),
    {
        if stack.len() == 0 {
            return ;
        }
        let t = stack[stack.len() - 1];
        match t {
            Token::Operator { precedence: p2, .. } => {
                let stop = match assoc {
                    Associativity::NonAssoc => true,
                    Associativity::Left => lvl > level(p2),
                    Associativity::Right => lvl >= level(p2),
                };
                if stop {
                    return ;
                }
                let x = stack.pop().unwrap();
                out.push(x);
            },
            _ => {
                return ;
            },
        }
    }
}

impl Calculator {
    /// Converts an infix token sequence to postfix (reverse Polish) order
    /// with the shunting-yard algorithm: the result is exactly
    /// [`spec_to_postfix`] of the input.  On success, every token of the
    /// output is one of the input's tokens.
    pub fn parse(&self, tokens: Vec<Token>) -> (r: Result<Vec<Token>, CalcError>)
        ensures
            (match r {
                Ok(out) => spec_to_postfix(tokens@) == Ok::<_, ErrorModel>(out@),
                Err(e) => spec_to_postfix(tokens@) == Err::<Seq<Token>, _>(e@),
            }),
            (r matches Ok(out) ==> all_from(out@, tokens@)),
    {
        let mut stack: Vec<Token> = Vec::new();
        let mut out: Vec<Token> = Vec::new();
        let n = tokens.len();
        let mut i: usize = 0;
        proof {
            assert(stack@ =~= Seq::<Token>::empty());
            assert(out@ =~= Seq::<Token>::empty());
        }
        while i < n
            invariant
                i <= n,
                n == tokens@.len(),
                shunt_run(tokens@, 0, Seq::<Token>::empty(), Seq::<Token>::empty()) == shunt_run(
                    tokens@,
                    i as int,
                    stack@,
                    out@,
                ),
                all_from(stack@, tokens@),
                all_from(out@, tokens@),
            decreases n - i,
        {
            let ghost stack0 = stack@;
            let ghost out0 = out@;
            let t = tokens[i];
            proof {
                assert(tokens@.contains(t)) by {
                    assert(tokens@[i as int] == t);
                }
            }
            match t {
                Token::Operand { .. } => {
                    out.push(t);
                },
                Token::Function { .. } => {
                    stack.push(t);
                },
                Token::LeftParen => {
                    stack.push(t);
                },
                Token::ArgumentSeparator => {
                    if !pop_to_lparen(&mut stack, &mut out, Ghost(tokens@)) {
                        proof {
                            assert(shunt_run(tokens@, i as int, stack0, out0) == Err::<
                                (Seq<Token>, Seq<Token>),
                                _,
                            >(ErrorModel::MissingLeftParenthesis));
                        }
                        return Err(CalcError::MissingLeftParenthesis);
                    }
                },
                Token::RightParen => {
                    if !pop_to_lparen(&mut stack, &mut out, Ghost(tokens@)) {
                        proof {
                            assert(shunt_run(tokens@, i as int, stack0, out0) == Err::<
                                (Seq<Token>, Seq<Token>),
                                _,
                            >(ErrorModel::MissingLeftParenthesis));
                        }
                        return Err(CalcError::MissingLeftParenthesis);
                    }
                    proof {
                        lemma_pop_until_some(stack0, out0);
                    }
                    let ghost st = stack@;
                    let _discarded = stack.pop();
                    proof {
                        assert(all_from(stack@, tokens@)) by {
                            assert forall|k: int| 0 <= k < stack@.len() implies tokens@.contains(
                                #[trigger] stack@[k],
                            ) by {
                                assert(stack@[k] == st[k]);
                            }
                        }
                    }
                    if stack.len() > 0 {
                        let top = stack[stack.len() - 1];
                        if matches!(top, Token::Function { .. }) {
                            let ghost st2 = stack@;
                            let f = stack.pop().unwrap();
                            out.push(f);
                            proof {
                                assert(all_from(stack@, tokens@)) by {
                                    assert forall|k: int|
                                        0 <= k < stack@.len() implies tokens@.contains(
                                        #[trigger] stack@[k],
                                    ) by {
                                        assert(stack@[k] == st2[k]);
                                    }
                                }
                            }
                        }
                    }
                },
                Token::Operator { precedence, associativity, .. } => {
                    let lvl = level(precedence);
                    pop_binders(&mut stack, &mut out, lvl, associativity, Ghost(tokens@));
                    stack.push(t);
                },
            }
            proof {
                let stepr = shunt_step(stack0, out0, t);
                assert(stepr matches Ok(p) && p.0 =~= stack@ && p.1 =~= out@);
            }
            i = i + 1;
        }
        // Drain what is left on the operator stack.
        loop
            invariant
                spec_to_postfix(tokens@) == drain(stack@, out@),
                all_from(stack@, tokens@),
                all_from(out@, tokens@),
            decreases stack@.len(),
        {
            if stack.len() == 0 {
                return Ok(out);
            }
            let t = stack[stack.len() - 1];
            match t {
                Token::RightParen => {
                    return Err(CalcError::MissingRightParenthesis);
                },
                Token::LeftParen => {
                    return Err(CalcError::MissingLeftParenthesis);
                },
                _ => {
                    let x = stack.pop().unwrap();
                    out.push(x);
                },
            }
        }
    }
}

} // verus!

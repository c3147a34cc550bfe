//! The lexer: raw characters to tokens.
//!
//! Numbers keep their text (the evaluator asks the caller to parse it);
//! identifiers are case-folded and resolved, in order, against the named
//! constants, the keyword operators, the keyword functions (only when a
//! left parenthesis follows), and the session's variables, declaring a
//! fresh variable with value 0.0 on first mention.

use vstd::prelude::*;

use crate::errors::CalcError;
use crate::errors::ErrorModel;
use crate::eval::wf_rpn;
use crate::eval::wf_token;
use crate::session::find_var;
use crate::session::Calculator;
use crate::session::E_BITS;
use crate::session::ONE_BITS;
use crate::session::PI_BITS;
use crate::session::TAU_BITS;
use crate::session::ZERO_BITS;
use crate::token::operator;
use crate::token::Associativity;
use crate::token::Operation;
use crate::token::Precedence;
use crate::token::Token;
use vstd::string::StrSliceExecFns;

verus! {

/// What the lexer hands back: the token sequence, and the text of each
/// numeric literal, in order of appearance.  A literal operand's `literal`
/// field is its index into `literals`.
pub struct LexOutput {
    pub tokens: Vec<Token>,
    pub literals: Vec<Vec<char>>,
}

/// The model of a literal table.
pub open spec fn lits_model(l: Seq<Vec<char>>) -> Seq<Seq<char>> {
    l.map_values(|v: Vec<char>| v@)
}

/// The lexer's accumulated state: tokens and literal texts emitted so far,
/// and the session's variable table.
#[verifier::ext_equal]
pub struct LexState {
    pub toks: Seq<Token>,
    pub lits: Seq<Seq<char>>,
    pub vars: Seq<(Seq<char>, u64)>,
}

/// How lexing ends: the final state, or the first error together with the
/// variable table as it stood then (variables declared before the error
/// persist).
#[verifier::ext_equal]
pub enum LexOut {
    Done { state: LexState },
    Fail { error: ErrorModel, vars: Seq<(Seq<char>, u64)> },
}

/// The case-folded form of a character sequence.
///
/// This is the result of `str::to_lowercase`, named but not written out.
pub uninterp spec fn lower_of(s: Seq<char>) -> Seq<char>;

/// Relies on `str::to_lowercase`: the case-folded text is a function of
/// the characters alone.
#[verifier::external_body]
fn lowercase(ident: &Vec<char>) -> (r: Vec<char>)
    ensures
        r@ == lower_of(ident@),
{
    ident.iter().collect::<String>().to_lowercase().chars().collect()
}

/// Whether a character counts as white space, as `char::is_whitespace`
/// decides it.
pub uninterp spec fn is_unicode_whitespace(c: char) -> bool;

/// Relies on `char::is_whitespace`: membership in the Unicode white-space
/// class is a function of the character alone.
#[verifier::external_body]
fn whitespace_char(c: char) -> (r: bool)
    ensures
        r == is_unicode_whitespace(c),
{
    c.is_whitespace()
}

/// Whether a character counts as alphabetic, as `char::is_alphabetic`
/// decides it.
pub uninterp spec fn is_unicode_alphabetic(c: char) -> bool;

/// Relies on `char::is_alphabetic`: membership in the Unicode letter
/// classes is a function of the character alone.
#[verifier::external_body]
fn alphabetic_char(c: char) -> (r: bool)
    ensures
        r == is_unicode_alphabetic(c),
{
    c.is_alphabetic()
}

/// A decimal digit.
pub open spec fn is_digit_char(c: char) -> bool {
    '0' <= c && c <= '9'
}

/// Executable twin of [`is_digit_char`].
fn digit_char(c: char) -> (r: bool)
    ensures
        r == is_digit_char(c),
{
    '0' <= c && c <= '9'
}

/// A character that may continue an identifier: a letter, a digit, or an
/// underscore.
pub open spec fn is_ident_char(c: char) -> bool {
    is_unicode_alphabetic(c) || is_digit_char(c) || c == '_'
}

/// Where the number that started just before `i` ends: the first position
/// at or after `i` that neither a digit nor a first decimal point can
/// extend.
pub open spec fn num_end(s: Seq<char>, i: int, found_dot: bool) -> int
    decreases s.len() - i,
{
    if i < 0 || i >= s.len() {
        s.len() as int
    } else if is_digit_char(s[i]) {
        num_end(s, i + 1, found_dot)
    } else if s[i] == '.' && !found_dot {
        num_end(s, i + 1, true)
    } else {
        i
    }
}

/// Where the identifier that started just before `i` ends.
pub open spec fn ident_end(s: Seq<char>, i: int) -> int
    decreases s.len() - i,
{
    if i < 0 || i >= s.len() {
        s.len() as int
    } else if is_ident_char(s[i]) {
        ident_end(s, i + 1)
    } else {
        i
    }
}

/// The scan positions returned by [`num_end`] and [`ident_end`] never move
/// backwards and never pass the end.
proof fn lemma_num_end_bounds(s: Seq<char>, i: int, found_dot: bool)
    requires
        0 <= i <= s.len(),
    ensures
        i <= num_end(s, i, found_dot) <= s.len(),
    decreases s.len() - i,
{
    if i < s.len() {
        if is_digit_char(s[i]) {
            lemma_num_end_bounds(s, i + 1, found_dot);
        } else if s[i] == '.' && !found_dot {
            lemma_num_end_bounds(s, i + 1, true);
        }
    }
}

/// See [`lemma_num_end_bounds`].
proof fn lemma_ident_end_bounds(s: Seq<char>, i: int)
    requires
        0 <= i <= s.len(),
    ensures
        i <= ident_end(s, i) <= s.len(),
    decreases s.len() - i,
{
    if i < s.len() {
        if is_ident_char(s[i]) {
            lemma_ident_end_bounds(s, i + 1);
        }
    }
}

/// A well-formed number literal: a leading digit, after which the number
/// scan consumes the whole text — digits with at most one decimal point.
/// Such a text always parses as a binary64 value.
pub open spec fn shaped_number(text: Seq<char>) -> bool {
    &&& text.len() > 0
    &&& is_digit_char(text[0])
    &&& num_end(text, 1, false) == text.len()
}

/// Every literal text in the table is a well-formed number.
pub open spec fn all_shaped(lits: Seq<Seq<char>>) -> bool {
    forall|k: int| 0 <= k < lits.len() ==> shaped_number(#[trigger] lits[k])
}

/// The number scan is insensitive to what lies outside the scanned window:
/// run on the text it accepted, from the matching position, it accepts to
/// the same end.
proof fn lemma_num_end_shift(s: Seq<char>, i: int, j: int, found_dot: bool)
    requires
        0 <= i <= j <= s.len(),
    ensures
        num_end(s.subrange(i, num_end(s, j, found_dot)), j - i, found_dot) == num_end(
            s,
            j,
            found_dot,
        ) - i,
    decreases s.len() - j,
{
    lemma_num_end_bounds(s, j, found_dot);
    let e = num_end(s, j, found_dot);
    let text = s.subrange(i, e);
    if j == e {
    } else if is_digit_char(s[j]) {
        assert(num_end(s, j + 1, found_dot) == e);
        lemma_num_end_shift(s, i, j + 1, found_dot);
    } else if s[j] == '.' && !found_dot {
        assert(num_end(s, j + 1, true) == e);
        lemma_num_end_shift(s, i, j + 1, true);
        assert(s.subrange(i, num_end(s, j + 1, true)) == text);
    } else {
    }
}

/// The token a case-folded identifier denotes as a named constant or a
/// keyword operator, if any.
pub open spec fn keyword_token(low: Seq<char>) -> Option<Token> {
    if low == "pi"@ {
        Some(Token::Operand { bits: PI_BITS, var_index: None, literal: None })
    } else if low == "tau"@ {
        Some(Token::Operand { bits: TAU_BITS, var_index: None, literal: None })
    } else if low == "e"@ {
        Some(Token::Operand { bits: E_BITS, var_index: None, literal: None })
    } else if low == "true"@ {
        Some(Token::Operand { bits: ONE_BITS, var_index: None, literal: None })
    } else if low == "false"@ {
        Some(Token::Operand { bits: ZERO_BITS, var_index: None, literal: None })
    } else if low == "not"@ {
        Some(
            Token::Operator {
                arity: 1,
                precedence: Precedence::Unary,
                associativity: Associativity::NonAssoc,
                op: Operation::Not,
            },
        )
    } else if low == "mod"@ {
        Some(
            Token::Operator {
                arity: 2,
                precedence: Precedence::Multiplicative,
                associativity: Associativity::Left,
                op: Operation::Modulus,
            },
        )
    } else if low == "and"@ {
        Some(
            Token::Operator {
                arity: 2,
                precedence: Precedence::LogicalAnd,
                associativity: Associativity::Left,
                op: Operation::And,
            },
        )
    } else if low == "nand"@ {
        Some(
            Token::Operator {
                arity: 2,
                precedence: Precedence::LogicalAnd,
                associativity: Associativity::Left,
                op: Operation::Nand,
            },
        )
    } else if low == "or"@ {
        Some(
            Token::Operator {
                arity: 2,
                precedence: Precedence::LogicalOr,
                associativity: Associativity::Left,
                op: Operation::Or,
            },
        )
    } else if low == "nor"@ {
        Some(
            Token::Operator {
                arity: 2,
                precedence: Precedence::LogicalOr,
                associativity: Associativity::Left,
                op: Operation::Nor,
            },
        )
    } else {
        None
    }
}

/// The token a case-folded identifier denotes as a keyword function, if
/// any.  Only consulted when a left parenthesis follows the identifier.
pub open spec fn function_token(low: Seq<char>) -> Option<Token> {
    if low == "sin"@ {
        Some(Token::Function { arity: 1, op: Operation::Sin })
    } else if low == "cos"@ {
        Some(Token::Function { arity: 1, op: Operation::Cos })
    } else if low == "tan"@ {
        Some(Token::Function { arity: 1, op: Operation::Tan })
    } else if low == "abs"@ {
        Some(Token::Function { arity: 1, op: Operation::Abs })
    } else if low == "sqrt"@ {
        Some(Token::Function { arity: 1, op: Operation::Sqrt })
    } else if low == "radians"@ {
        Some(Token::Function { arity: 1, op: Operation::Radians })
    } else if low == "degrees"@ {
        Some(Token::Function { arity: 1, op: Operation::Degrees })
    } else if low == "result"@ {
        Some(Token::Function { arity: 1, op: Operation::History })
    } else if low == "ln"@ {
        Some(Token::Function { arity: 1, op: Operation::Ln })
    } else if low == "log2"@ {
        Some(Token::Function { arity: 1, op: Operation::Log2 })
    } else if low == "log10"@ {
        Some(Token::Function { arity: 1, op: Operation::Log10 })
    } else if low == "exp"@ {
        Some(Token::Function { arity: 1, op: Operation::Exp })
    } else if low == "sign"@ {
        Some(Token::Function { arity: 1, op: Operation::Sign })
    } else if low == "min"@ {
        Some(Token::Function { arity: 2, op: Operation::Min })
    } else if low == "max"@ {
        Some(Token::Function { arity: 2, op: Operation::Max })
    } else if low == "pow"@ {
        Some(Token::Function { arity: 2, op: Operation::Power })
    } else {
        None
    }
}

/// What an identifier resolves to, and the variable table afterwards: a
/// constant's value, a keyword operator, a keyword function when a left
/// parenthesis follows, an unknown-function error when one follows any
/// other identifier,
/// or a variable — existing, or declared here with value 0.0.
pub open spec fn resolve_identifier(
    ident: Seq<char>,
    is_func: bool,
    vars: Seq<(Seq<char>, u64)>,
) -> (Result<Token, ErrorModel>, Seq<(Seq<char>, u64)>) {
    let low = lower_of(ident);
    if keyword_token(low) is Some {
        (Ok(keyword_token(low)->Some_0), vars)
    } else if is_func && function_token(low) is Some {
        (Ok(function_token(low)->Some_0), vars)
    } else if is_func {
        (Err(ErrorModel::UnknownFunction(ident)), vars)
    } else {
        match find_var(vars, low) {
            Some(j) => (
                Ok(Token::Operand { bits: vars[j].1, var_index: Some(j as usize), literal: None }),
                vars,
            ),
            None => (
                Ok(
                    Token::Operand {
                        bits: ZERO_BITS,
                        var_index: Some(vars.len() as usize),
                        literal: None,
                    },
                ),
                vars.push((low, ZERO_BITS)),
            ),
        }
    }
}

/// Whether the token sequence so far ends at a value: an operand, a
/// closing parenthesis, or a postfix operator.  Right after a value, `+` and `-` are binary;
/// anywhere else they are unary.
pub open spec fn is_value_end(toks: Seq<Token>) -> bool {
    toks.len() > 0 && match toks.last() {
        Token::Operand { .. } => true,
        Token::RightParen => true,
        Token::Operator { precedence, .. } => precedence is Postfix,
        _ => false,
    }
}

/// The `+` or `-` token at a position: binary addition or subtraction
/// after a value, unary identity or negation otherwise.
pub open spec fn plus_minus_token(minus: bool, toks: Seq<Token>) -> Token {
    if is_value_end(toks) {
        Token::Operator {
            arity: 2,
            precedence: Precedence::Additive,
            associativity: Associativity::Left,
            op: if minus {
                Operation::Subtraction
            } else {
                Operation::Addition
            },
        }
    } else {
        Token::Operator {
            arity: 1,
            precedence: Precedence::Unary,
            associativity: Associativity::NonAssoc,
            op: if minus {
                Operation::Negation
            } else {
                Operation::Identity
            },
        }
    }
}

/// One whole lexing pass from position `i` on: [`LexOut::Done`] with the
/// final state, or the first error.
pub open spec fn lex_from(s: Seq<char>, i: int, st: LexState) -> LexOut
    decreases s.len() - i,
    when 0 <= i
    via lex_from_decreases
{
    if i >= s.len() {
        LexOut::Done { state: st }
    } else {
        let c = s[i];
        if is_unicode_whitespace(c) {
            lex_from(s, i + 1, st)
        } else if c == '\u{28}' {
            lex_from(s, i + 1, LexState { toks: st.toks.push(Token::LeftParen), ..st })
        } else if c == '\u{29}' {
            lex_from(s, i + 1, LexState { toks: st.toks.push(Token::RightParen), ..st })
        } else if c == ',' {
            lex_from(s, i + 1, LexState { toks: st.toks.push(Token::ArgumentSeparator), ..st })
        } else if c == '/' {
            lex_from(
                s,
                i + 1,
                LexState {
                    toks: st.toks.push(
                        Token::Operator {
                            arity: 2,
                            precedence: Precedence::Multiplicative,
                            associativity: Associativity::Left,
                            op: Operation::Division,
                        },
                    ),
                    ..st
                },
            )
        } else if c == '%' {
            lex_from(
                s,
                i + 1,
                LexState {
                    toks: st.toks.push(
                        Token::Operator {
                            arity: 2,
                            precedence: Precedence::Multiplicative,
                            associativity: Associativity::Left,
                            op: Operation::Modulus,
                        },
                    ),
                    ..st
                },
            )
        } else if c == '^' {
            lex_from(
                s,
                i + 1,
                LexState {
                    toks: st.toks.push(
                        Token::Operator {
                            arity: 2,
                            precedence: Precedence::Power,
                            associativity: Associativity::Right,
                            op: Operation::Power,
                        },
                    ),
                    ..st
                },
            )
        } else if is_digit_char(c) {
            let e = num_end(s, i + 1, false);
            let text = s.subrange(i, e);
            lex_from(
                s,
                e,
                LexState {
                    toks: st.toks.push(
                        Token::Operand {
                            bits: ZERO_BITS,
                            var_index: None,
                            literal: Some(st.lits.len() as usize),
                        },
                    ),
                    lits: st.lits.push(text),
                    ..st
                },
            )
        } else if is_unicode_alphabetic(c) {
            let e = ident_end(s, i + 1);
            let ident = s.subrange(i, e);
            let is_func = e < s.len() && s[e] == '\u{28}';
            let (resolved, vars2) = resolve_identifier(ident, is_func, st.vars);
            match resolved {
                Ok(t) => lex_from(s, e, LexState { toks: st.toks.push(t), vars: vars2, ..st }),
                Err(err) => LexOut::Fail { error: err, vars: vars2 },
            }
        } else if c == '*' {
            if i + 1 < s.len() && s[i + 1] == '*' {
                lex_from(
                    s,
                    i + 2,
                    LexState {
                        toks: st.toks.push(
                            Token::Operator {
                                arity: 2,
                                precedence: Precedence::Power,
                                associativity: Associativity::Right,
                                op: Operation::Power,
                            },
                        ),
                        ..st
                    },
                )
            } else {
                lex_from(
                    s,
                    i + 1,
                    LexState {
                        toks: st.toks.push(
                            Token::Operator {
                                arity: 2,
                                precedence: Precedence::Multiplicative,
                                associativity: Associativity::Left,
                                op: Operation::Multiplication,
                            },
                        ),
                        ..st
                    },
                )
            }
        } else if c == '+' {
            lex_from(s, i + 1, LexState { toks: st.toks.push(plus_minus_token(false, st.toks)), ..st })
        } else if c == '-' {
            lex_from(s, i + 1, LexState { toks: st.toks.push(plus_minus_token(true, st.toks)), ..st })
        } else if c == '!' {
            if i + 1 < s.len() && s[i + 1] == '=' {
                lex_from(
                    s,
                    i + 2,
                    LexState {
                        toks: st.toks.push(
                            Token::Operator {
                                arity: 2,
                                precedence: Precedence::Equality,
                                associativity: Associativity::Left,
                                op: Operation::Inequality,
                            },
                        ),
                        ..st
                    },
                )
            } else {
                lex_from(
                    s,
                    i + 1,
                    LexState {
                        toks: st.toks.push(
                            Token::Operator {
                                arity: 1,
                                precedence: Precedence::Postfix,
                                associativity: Associativity::NonAssoc,
                                op: Operation::Factorial,
                            },
                        ),
                        ..st
                    },
                )
            }
        } else if c == '>' {
            if i + 1 < s.len() && s[i + 1] == '=' {
                lex_from(
                    s,
                    i + 2,
                    LexState {
                        toks: st.toks.push(
                            Token::Operator {
                                arity: 2,
                                precedence: Precedence::Relational,
                                associativity: Associativity::Left,
                                op: Operation::GreaterEqual,
                            },
                        ),
                        ..st
                    },
                )
            } else {
                lex_from(
                    s,
                    i + 1,
                    LexState {
                        toks: st.toks.push(
                            Token::Operator {
                                arity: 2,
                                precedence: Precedence::Relational,
                                associativity: Associativity::Left,
                                op: Operation::Greater,
                            },
                        ),
                        ..st
                    },
                )
            }
        } else if c == '<' {
            if i + 1 < s.len() && s[i + 1] == '=' {
                lex_from(
                    s,
                    i + 2,
                    LexState {
                        toks: st.toks.push(
                            Token::Operator {
                                arity: 2,
                                precedence: Precedence::Relational,
                                associativity: Associativity::Left,
                                op: Operation::LessEqual,
                            },
                        ),
                        ..st
                    },
                )
            } else {
                lex_from(
                    s,
                    i + 1,
                    LexState {
                        toks: st.toks.push(
                            Token::Operator {
                                arity: 2,
                                precedence: Precedence::Relational,
                                associativity: Associativity::Left,
                                op: Operation::Less,
                            },
                        ),
                        ..st
                    },
                )
            }
        } else if c == '=' {
            if i + 1 < s.len() && s[i + 1] == '=' {
                lex_from(
                    s,
                    i + 2,
                    LexState {
                        toks: st.toks.push(
                            Token::Operator {
                                arity: 2,
                                precedence: Precedence::Equality,
                                associativity: Associativity::Left,
                                op: Operation::Equality,
                            },
                        ),
                        ..st
                    },
                )
            } else {
                lex_from(
                    s,
                    i + 1,
                    LexState {
                        toks: st.toks.push(
                            Token::Operator {
                                arity: 2,
                                precedence: Precedence::Assignment,
                                associativity: Associativity::Left,
                                op: Operation::Assignment,
                            },
                        ),
                        ..st
                    },
                )
            }
        } else if c == '&' && i + 1 < s.len() && s[i + 1] == '&' {
            lex_from(
                s,
                i + 2,
                LexState {
                    toks: st.toks.push(
                        Token::Operator {
                            arity: 2,
                            precedence: Precedence::LogicalAnd,
                            associativity: Associativity::Left,
                            op: Operation::And,
                        },
                    ),
                    ..st
                },
            )
        } else if c == '|' && i + 1 < s.len() && s[i + 1] == '|' {
            lex_from(
                s,
                i + 2,
                LexState {
                    toks: st.toks.push(
                        Token::Operator {
                            arity: 2,
                            precedence: Precedence::LogicalOr,
                            associativity: Associativity::Left,
                            op: Operation::Or,
                        },
                    ),
                    ..st
                },
            )
        } else {
            LexOut::Fail { error: ErrorModel::InvalidCharacter(c), vars: st.vars }
        }
    }
}

#[via_fn]
proof fn lex_from_decreases(s: Seq<char>, i: int, st: LexState) {
    if 0 <= i < s.len() {
        lemma_num_end_bounds(s, i + 1, false);
        lemma_ident_end_bounds(s, i + 1);
    }
}

/// A token that carries no literal index.
pub open spec fn no_literal(t: Token) -> bool {
    match t {
        Token::Operand { literal, .. } => literal is None,
        _ => true,
    }
}

/// Whether a token's literal index, if any, lies below `nlits`.
pub open spec fn lit_in_range(t: Token, nlits: nat) -> bool {
    match t {
        Token::Operand { literal, .. } => (literal matches Some(j) ==> j < nlits),
        _ => true,
    }
}

/// Every literal index among the tokens lies inside the literal table.
pub open spec fn lits_in_range(toks: Seq<Token>, nlits: nat) -> bool {
    forall|k: int| 0 <= k < toks.len() ==> lit_in_range(#[trigger] toks[k], nlits)
}

/// The characters of a string, in order.
pub fn chars_of(s: &str) -> (r: Vec<char>)
    ensures
        r@ == s@,
{
    let n = s.unicode_len();
    let mut r: Vec<char> = Vec::new();
    let mut i: usize = 0;
    while i < n
        invariant
            i <= n,
            n == s@.len(),
            r@ =~= s@.subrange(0, i as int),
        decreases n - i,
    {
        r.push(s.get_char(i));
        i = i + 1;
    }
    proof {
        assert(r@ =~= s@);
    }
    r
}

/// Whether a character vector holds exactly the characters of `s`.
fn chars_eq_str(v: &Vec<char>, s: &str) -> (r: bool)
    ensures
        r == (v@ == s@),
{
    let n = s.unicode_len();
    if v.len() != n {
        return false;
    }
    let mut i: usize = 0;
    while i < n
        invariant
            i <= n,
            n == s@.len(),
            n == v@.len(),
            forall|k: int| 0 <= k < i ==> v@[k] == s@[k],
        decreases n - i,
    {
        if v[i] != s.get_char(i) {
            return false;
        }
        i = i + 1;
    }
    proof {
        assert(v@ =~= s@);
    }
    true
}

/// Scans to the end of the number that started just before `start`.
fn scan_number(chars: &Vec<char>, start: usize) -> (e: usize)
    requires
        start <= chars@.len(),
    ensures
        e == num_end(chars@, start as int, false),
        start <= e <= chars@.len(),
{
    proof {
        lemma_num_end_bounds(chars@, start as int, false);
    }
    let n = chars.len();
    let mut i: usize = start;
    let mut fd: bool = false;
    loop
        invariant
            start <= i <= n,
            n == chars@.len(),
            num_end(chars@, start as int, false) == num_end(chars@, i as int, fd),
        decreases n - i,
    {
        if i == n {
            return i;
        }
        let c = chars[i];
        if digit_char(c) {
            i = i + 1;
        } else if c == '.' && !fd {
            fd = true;
            i = i + 1;
        } else {
            return i;
        }
    }
}

/// Scans to the end of the identifier that started just before `start`.
fn scan_ident(chars: &Vec<char>, start: usize) -> (e: usize)
    requires
        start <= chars@.len(),
    ensures
        e == ident_end(chars@, start as int),
        start <= e <= chars@.len(),
{
    proof {
        lemma_ident_end_bounds(chars@, start as int);
    }
    let n = chars.len();
    let mut i: usize = start;
    loop
        invariant
            start <= i <= n,
            n == chars@.len(),
            ident_end(chars@, start as int) == ident_end(chars@, i as int),
        decreases n - i,
    {
        if i == n {
            return i;
        }
        let c = chars[i];
        if alphabetic_char(c) || digit_char(c) || c == '_' {
            i = i + 1;
        } else {
            return i;
        }
    }
}

/// The characters from `a` (inclusive) to `b` (exclusive).
fn subvec(chars: &Vec<char>, a: usize, b: usize) -> (r: Vec<char>)
    requires
        a <= b <= chars@.len(),
    ensures
        r@ == chars@.subrange(a as int, b as int),
{
    let mut r: Vec<char> = Vec::new();
    let mut i: usize = a;
    while i < b
        invariant
            a <= i <= b,
            b <= chars@.len(),
            r@ =~= chars@.subrange(a as int, i as int),
        decreases b - i,
    {
        r.push(chars[i]);
        i = i + 1;
    }
    proof {
        assert(r@ =~= chars@.subrange(a as int, b as int));
    }
    r
}

/// Executable twin of [`is_value_end`].
fn value_end(toks: &Vec<Token>) -> (r: bool)
    ensures
        r == is_value_end(toks@),
{
    if toks.len() == 0 {
        return false;
    }
    let t = toks[toks.len() - 1];
    match t {
        Token::Operand { .. } => true,
        Token::RightParen => true,
        Token::Operator { precedence, .. } => matches!(precedence, Precedence::Postfix),
        _ => false,
    }
}

impl Calculator {
    /// Lexes one expression against this session: exactly
    /// [`spec_tokenize`] of the text and the variable table.
    ///
    /// Whatever the outcome, the session's results are untouched and its
    /// variable table is only appended to: an identifier seen for the first
    /// time is declared (with value 0.0) even when a later character makes
    /// the whole expression fail.
    pub fn tokenize(&mut self, expression: &str) -> (r: Result<LexOutput, CalcError>)
        ensures
            final(self)@.results == old(self)@.results,
            crate::session::vars_prefix(old(self)@.vars, final(self)@.vars),
            (match r {
                Ok(out) => spec_tokenize(expression@, old(self)@.vars) == (LexOut::Done {
                    state: LexState {
                        toks: out.tokens@,
                        lits: lits_model(out.literals@),
                        vars: final(self)@.vars,
                    },
                }),
                Err(e) => spec_tokenize(expression@, old(self)@.vars) == (LexOut::Fail {
                    error: e@,
                    vars: final(self)@.vars,
                }),
            }),
            (r matches Ok(out) ==> wf_rpn(out.tokens@, final(self)@.vars.len())),
            (r matches Ok(out) ==> lits_in_range(out.tokens@, out.literals@.len())),
            (r matches Ok(out) ==> all_shaped(lits_model(out.literals@))),
    {
        let ghost vars0 = self@.vars;
        let ghost g = spec_tokenize(expression@, vars0);
        if expression.is_empty() {
            return Err(CalcError::EmptyExpression);
        }
        let chars = chars_of(expression);
        let n = chars.len();
        let mut toks: Vec<Token> = Vec::new();
        let mut lits: Vec<Vec<char>> = Vec::new();
        let mut pos: usize = 0;
        proof {
            assert(lits_model(lits@) =~= Seq::<Seq<char>>::empty());
            assert(toks@ =~= Seq::<Token>::empty());
            assert(g == lex_from(
                chars@,
                pos as int,
                LexState { toks: toks@, lits: lits_model(lits@), vars: self@.vars },
            ));
        }
        while pos < n
            invariant
                pos <= n,
                n == chars@.len(),
                chars@ == expression@,
                vars0 == old(self)@.vars,
                old(self)@.vars.len() <= self@.vars.len(),
                g == spec_tokenize(expression@, vars0),
                g == lex_from(
                    chars@,
                    pos as int,
                    LexState { toks: toks@, lits: lits_model(lits@), vars: self@.vars },
                ),
                self@.results == old(self)@.results,
                crate::session::vars_prefix(vars0, self@.vars),
                wf_rpn(toks@, self@.vars.len()),
                lits_in_range(toks@, lits@.len()),
                all_shaped(lits_model(lits@)),
            decreases n - pos,
        {
            let ghost pos0 = pos as int;
            let ghost st0 = LexState { toks: toks@, lits: lits_model(lits@), vars: self@.vars };
            let c = chars[pos];
            let tok: Token;
            let adv: usize;
            if whitespace_char(c) {
                pos = pos + 1;
                continue ;
            } else if c == '\u{28}' {
                tok = Token::LeftParen;
                adv = 1;
            } else if c == '\u{29}' {
                tok = Token::RightParen;
                adv = 1;
            } else if c == ',' {
                tok = Token::ArgumentSeparator;
                adv = 1;
            } else if c == '/' {
                tok = operator(2, Precedence::Multiplicative, Associativity::Left, Operation::Division);
                adv = 1;
            } else if c == '%' {
                tok = operator(2, Precedence::Multiplicative, Associativity::Left, Operation::Modulus);
                adv = 1;
            } else if c == '^' {
                tok = operator(2, Precedence::Power, Associativity::Right, Operation::Power);
                adv = 1;
            } else if digit_char(c) {
                let e = scan_number(&chars, pos + 1);
                let text = subvec(&chars, pos, e);
                let ghost textg = text@;
                toks.push(
                    Token::Operand { bits: ZERO_BITS, var_index: None, literal: Some(lits.len()) },
                );
                lits.push(text);
                pos = e;
                proof {
                    lemma_num_end_shift(chars@, pos0, pos0 + 1, false);
                    assert(shaped_number(textg));
                    assert(lits_model(lits@) =~= st0.lits.push(textg));
                    assert forall|k: int| 0 <= k < lits_model(lits@).len() implies shaped_number(
                        #[trigger] lits_model(lits@)[k],
                    ) by {
                        if k < st0.lits.len() {
                            assert(lits_model(lits@)[k] == st0.lits[k]);
                        } else {
                            assert(lits_model(lits@)[k] == textg);
                        }
                    }
                    let st1 = LexState {
                        toks: toks@,
                        lits: lits_model(lits@),
                        vars: self@.vars,
                    };
                    assert(st1 =~= LexState {
                        toks: st0.toks.push(
                            Token::Operand {
                                bits: ZERO_BITS,
                                var_index: None,
                                literal: Some(st0.lits.len() as usize),
                            },
                        ),
                        lits: st0.lits.push(textg),
                        ..st0
                    });
                    assert(g == lex_from(chars@, pos as int, st1));
                }
                continue ;
            } else if alphabetic_char(c) {
                let e = scan_ident(&chars, pos + 1);
                let ident = subvec(&chars, pos, e);
                let is_func = e < n && chars[e] == '\u{28}';
                let ghost identg = ident@;
                let ghost vars_before = self@.vars;
                let resolved = self.resolve_identifier_exec(ident, is_func);
                match resolved {
                    Ok(t) => {
                        toks.push(t);
                        pos = e;
                        proof {
                            let st1 = LexState {
                                toks: toks@,
                                lits: lits_model(lits@),
                                vars: self@.vars,
                            };
                            assert(st1 =~= LexState {
                                toks: st0.toks.push(t),
                                vars: self@.vars,
                                ..st0
                            });
                            assert(g == lex_from(chars@, pos as int, st1));
                        }
                        continue ;
                    },
                    Err(err) => {
                        proof {
                            assert(g == (LexOut::Fail { error: err@, vars: self@.vars }));
                        }
                        return Err(err);
                    },
                }
            } else if c == '*' {
                if pos + 1 < n && chars[pos + 1] == '*' {
                    tok = operator(2, Precedence::Power, Associativity::Right, Operation::Power);
                    adv = 2;
                } else {
                    tok = operator(2, Precedence::Multiplicative, Associativity::Left, Operation::Multiplication);
                    adv = 1;
                }
            } else if c == '+' {
                if value_end(&toks) {
                    tok = operator(2, Precedence::Additive, Associativity::Left, Operation::Addition);
                } else {
                    tok = operator(1, Precedence::Unary, Associativity::NonAssoc, Operation::Identity);
                }
                adv = 1;
            } else if c == '-' {
                if value_end(&toks) {
                    tok = operator(2, Precedence::Additive, Associativity::Left, Operation::Subtraction);
                } else {
                    tok = operator(1, Precedence::Unary, Associativity::NonAssoc, Operation::Negation);
                }
                adv = 1;
            } else if c == '!' {
                if pos + 1 < n && chars[pos + 1] == '=' {
                    tok = operator(2, Precedence::Equality, Associativity::Left, Operation::Inequality);
                    adv = 2;
                } else {
                    tok = operator(1, Precedence::Postfix, Associativity::NonAssoc, Operation::Factorial);
                    adv = 1;
                }
            } else if c == '>' {
                if pos + 1 < n && chars[pos + 1] == '=' {
                    tok = operator(2, Precedence::Relational, Associativity::Left, Operation::GreaterEqual);
                    adv = 2;
                } else {
                    tok = operator(2, Precedence::Relational, Associativity::Left, Operation::Greater);
                    adv = 1;
                }
            } else if c == '<' {
                if pos + 1 < n && chars[pos + 1] == '=' {
                    tok = operator(2, Precedence::Relational, Associativity::Left, Operation::LessEqual);
                    adv = 2;
                } else {
                    tok = operator(2, Precedence::Relational, Associativity::Left, Operation::Less);
                    adv = 1;
                }
            } else if c == '=' {
                if pos + 1 < n && chars[pos + 1] == '=' {
                    tok = operator(2, Precedence::Equality, Associativity::Left, Operation::Equality);
                    adv = 2;
                } else {
                    tok = operator(2, Precedence::Assignment, Associativity::Left, Operation::Assignment);
                    adv = 1;
                }
            } else if c == '&' && pos + 1 < n && chars[pos + 1] == '&' {
                tok = operator(2, Precedence::LogicalAnd, Associativity::Left, Operation::And);
                adv = 2;
            } else if c == '|' && pos + 1 < n && chars[pos + 1] == '|' {
                tok = operator(2, Precedence::LogicalOr, Associativity::Left, Operation::Or);
                adv = 2;
            } else {
                proof {
                    assert(g == (LexOut::Fail {
                        error: ErrorModel::InvalidCharacter(c),
                        vars: self@.vars,
                    }));
                }
                return Err(CalcError::InvalidCharacter(c));
            }
            toks.push(tok);
            pos = pos + adv;
            proof {
                let st1 = LexState { toks: toks@, lits: lits_model(lits@), vars: self@.vars };
                assert(st1 =~= LexState { toks: st0.toks.push(tok), ..st0 });
                assert(g == lex_from(chars@, pos as int, st1));
            }
        }
        let out = LexOutput { tokens: toks, literals: lits };
        proof {
            assert(g == (LexOut::Done {
                state: LexState {
                    toks: out.tokens@,
                    lits: lits_model(out.literals@),
                    vars: self@.vars,
                },
            }));
        }
        Ok(out)
    }

    /// Resolves one identifier, declaring it as a fresh variable with value
    /// 0.0 when it names nothing yet: exactly [`resolve_identifier`].
    fn resolve_identifier_exec(&mut self, ident: Vec<char>, is_func: bool) -> (r: Result<
        Token,
        CalcError,
    >)
        ensures
            final(self)@.results == old(self)@.results,
            crate::session::vars_prefix(old(self)@.vars, final(self)@.vars),
            ({
                let (rr, vars2) = resolve_identifier(ident@, is_func, old(self)@.vars);
                &&& final(self)@.vars == vars2
                &&& (match r {
                    Ok(t) => rr == Ok::<Token, ErrorModel>(t),
                    Err(e) => rr == Err::<Token, ErrorModel>(e@),
                })
            }),
            (r matches Ok(t) ==> wf_token(t, final(self)@.vars.len())),
            (r matches Ok(t) ==> no_literal(t)),
    {
        let low = lowercase(&ident);
        if chars_eq_str(&low, "pi") {
            return Ok(Token::Operand { bits: PI_BITS, var_index: None, literal: None });
        }
        if chars_eq_str(&low, "tau") {
            return Ok(Token::Operand { bits: TAU_BITS, var_index: None, literal: None });
        }
        if chars_eq_str(&low, "e") {
            return Ok(Token::Operand { bits: E_BITS, var_index: None, literal: None });
        }
        if chars_eq_str(&low, "true") {
            return Ok(Token::Operand { bits: ONE_BITS, var_index: None, literal: None });
        }
        if chars_eq_str(&low, "false") {
            return Ok(Token::Operand { bits: ZERO_BITS, var_index: None, literal: None });
        }
        if chars_eq_str(&low, "not") {
            return Ok(operator(1, Precedence::Unary, Associativity::NonAssoc, Operation::Not));
        }
        if chars_eq_str(&low, "mod") {
            return Ok(operator(2, Precedence::Multiplicative, Associativity::Left, Operation::Modulus));
        }
        if chars_eq_str(&low, "and") {
            return Ok(operator(2, Precedence::LogicalAnd, Associativity::Left, Operation::And));
        }
        if chars_eq_str(&low, "nand") {
            return Ok(operator(2, Precedence::LogicalAnd, Associativity::Left, Operation::Nand));
        }
        if chars_eq_str(&low, "or") {
            return Ok(operator(2, Precedence::LogicalOr, Associativity::Left, Operation::Or));
        }
        if chars_eq_str(&low, "nor") {
            return Ok(operator(2, Precedence::LogicalOr, Associativity::Left, Operation::Nor));
        }
        if is_func {
            if chars_eq_str(&low, "sin") {
                return Ok(Token::Function { arity: 1, op: Operation::Sin });
            }
            if chars_eq_str(&low, "cos") {
                return Ok(Token::Function { arity: 1, op: Operation::Cos });
            }
            if chars_eq_str(&low, "tan") {
                return Ok(Token::Function { arity: 1, op: Operation::Tan });
            }
            if chars_eq_str(&low, "abs") {
                return Ok(Token::Function { arity: 1, op: Operation::Abs });
            }
            if chars_eq_str(&low, "sqrt") {
                return Ok(Token::Function { arity: 1, op: Operation::Sqrt });
            }
            if chars_eq_str(&low, "radians") {
                return Ok(Token::Function { arity: 1, op: Operation::Radians });
            }
            if chars_eq_str(&low, "degrees") {
                return Ok(Token::Function { arity: 1, op: Operation::Degrees });
            }
            if chars_eq_str(&low, "result") {
                return Ok(Token::Function { arity: 1, op: Operation::History });
            }
            if chars_eq_str(&low, "ln") {
                return Ok(Token::Function { arity: 1, op: Operation::Ln });
            }
            if chars_eq_str(&low, "log2") {
                return Ok(Token::Function { arity: 1, op: Operation::Log2 });
            }
            if chars_eq_str(&low, "log10") {
                return Ok(Token::Function { arity: 1, op: Operation::Log10 });
            }
            if chars_eq_str(&low, "exp") {
                return Ok(Token::Function { arity: 1, op: Operation::Exp });
            }
            if chars_eq_str(&low, "sign") {
                return Ok(Token::Function { arity: 1, op: Operation::Sign });
            }
            if chars_eq_str(&low, "min") {
                return Ok(Token::Function { arity: 2, op: Operation::Min });
            }
            if chars_eq_str(&low, "max") {
                return Ok(Token::Function { arity: 2, op: Operation::Max });
            }
            if chars_eq_str(&low, "pow") {
                return Ok(Token::Function { arity: 2, op: Operation::Power });
            }
            return Err(CalcError::UnknownFunction(ident));
        }
        // The function keywords are reserved only ahead of a left
        // parenthesis: anywhere else they are ordinary variable names.
        match self.find_variable(&low) {
            Some(j) => {
                let bits = self.variable_bits(j);
                Ok(Token::Operand { bits, var_index: Some(j), literal: None })
            },
            None => {
                let slot = self.variable_count();
                self.push_variable(low, ZERO_BITS);
                Ok(Token::Operand { bits: ZERO_BITS, var_index: Some(slot), literal: None })
            },
        }
    }
}

/// What lexing a whole expression yields: the empty-expression error, or
/// [`lex_from`] the start with nothing emitted yet.
pub open spec fn spec_tokenize(s: Seq<char>, vars: Seq<(Seq<char>, u64)>) -> LexOut {
    if s.len() == 0 {
        LexOut::Fail { error: ErrorModel::EmptyExpression, vars }
    } else {
        lex_from(
            s,
            0,
            LexState { toks: Seq::<Token>::empty(), lits: Seq::<Seq<char>>::empty(), vars },
        )
    }
}

} // verus!

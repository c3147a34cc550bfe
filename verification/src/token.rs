//! Tokens of the expression language, with their precedence and
//! associativity table.

use vstd::prelude::*;

verus! {

/// Precedence levels, a strict total order from loosest to tightest binding.
#[derive(Clone, Copy, Debug, PartialEq, Eq, Structural)]
pub enum Precedence {
    Assignment,
    LogicalOr,
    LogicalAnd,
    Equality,
    Relational,
    Additive,
    Multiplicative,
    Power,
    Unary,
    Postfix,
}

/// How operators of equal precedence group.
#[derive(Clone, Copy, Debug, PartialEq, Eq, Structural)]
pub enum Associativity {
    NonAssoc,
    Left,
    Right,
}

/// Every computation the evaluator can be asked to run: unary and binary
/// operators and the built-in functions.  `History` is the `result(n)`
/// lookup into the session's past results.
#[derive(Clone, Copy, Debug, PartialEq, Eq, Structural)]
pub enum Operation {
    // unary operators
    Negation,
    Identity,
    Not,
    // binary operators
    Addition,
    Subtraction,
    Multiplication,
    Division,
    Modulus,
    Assignment,
    Equality,
    Inequality,
    Less,
    LessEqual,
    Greater,
    GreaterEqual,
    And,
    Nand,
    Or,
    Nor,
    Power,
    Factorial,
    // single-argument functions
    Sin,
    Cos,
    Tan,
    Abs,
    Sqrt,
    Radians,
    Degrees,
    Ln,
    Log2,
    Log10,
    Exp,
    Sign,
    History,
    // two-argument functions
    Min,
    Max,
}

/// One token of an expression.
///
/// An operand carries the bit pattern of its binary64 value.  A numeric
/// literal's value is not known to the library: the lexer leaves `bits` as
/// zero and sets `literal` to the index of the literal's text in the
/// [`crate::lexer::LexOutput`], and the evaluator asks the caller to parse
/// that text when the operand is used.  An operand that denotes a variable
/// carries the variable's slot index in `var_index`, so that assignment can
/// write back through it.
#[derive(Clone, Copy, Debug, PartialEq, Eq, Structural)]
pub enum Token {
    LeftParen,
    RightParen,
    ArgumentSeparator,
    Operator { arity: usize, precedence: Precedence, associativity: Associativity, op: Operation },
    Function { arity: usize, op: Operation },
    Operand { bits: u64, var_index: Option<usize>, literal: Option<usize> },
}

/// The rank of a precedence level: higher binds tighter.
pub open spec fn prec_level(p: Precedence) -> nat {
    match p {
        Precedence::Assignment => 0,
        Precedence::LogicalOr => 1,
        Precedence::LogicalAnd => 2,
        Precedence::Equality => 3,
        Precedence::Relational => 4,
        Precedence::Additive => 5,
        Precedence::Multiplicative => 6,
        Precedence::Power => 7,
        Precedence::Unary => 8,
        Precedence::Postfix => 9,
    }
}

/// Executable twin of [`prec_level`].
pub fn level(p: Precedence) -> (r: u8)
    ensures
        r as nat == prec_level(p),
{
    match p {
        Precedence::Assignment => 0,
        Precedence::LogicalOr => 1,
        Precedence::LogicalAnd => 2,
        Precedence::Equality => 3,
        Precedence::Relational => 4,
        Precedence::Additive => 5,
        Precedence::Multiplicative => 6,
        Precedence::Power => 7,
        Precedence::Unary => 8,
        Precedence::Postfix => 9,
    }
}

/// Builds an operator token.
pub fn operator(
    arity: usize,
    precedence: Precedence,
    associativity: Associativity,
    op: Operation,
) -> (t: Token)
    ensures
        t == (Token::Operator { arity, precedence, associativity, op }),
{
    Token::Operator { arity, precedence, associativity, op }
}

} // verus!

//! An interactive arithmetic/logic expression evaluator.
//!
//! An expression is lexed into tokens, converted from infix to postfix
//! (reverse Polish) order with the shunting-yard algorithm, and the postfix
//! form is evaluated against a session that holds named variables and the
//! history of past results.
//!
//! Numeric values are carried as the bit patterns of IEEE-754 binary64
//! numbers (`u64`).  The library itself never performs floating-point
//! arithmetic: whenever the evaluator needs one of the arithmetic results it
//! cannot compute, it hands the caller a [`eval::MathRequest`] and continues
//! with the caller's [`eval::MathAnswer`].  Everything else — scanning,
//! precedence, operand-stack discipline, variables, history, every error
//! case — is verified.

pub mod errors;
pub mod eval;
pub mod laws;
pub mod lexer;
pub mod session;
pub mod shunting;
pub mod token;

pub use errors::CalcError;
pub use eval::Evaluation;
pub use eval::FloatCmp;
pub use eval::MathAnswer;
pub use eval::MathRequest;
pub use eval::Step;
pub use lexer::LexOutput;
pub use session::Calculator;
pub use token::Associativity;
pub use token::Operation;
pub use token::Precedence;
pub use token::Token;

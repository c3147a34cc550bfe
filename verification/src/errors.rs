//! The tagged error type shared by the lexer, the converter and the
//! evaluator.

use vstd::prelude::*;

verus! {

/// Every way an expression can fail, across all three stages.
///
/// `UnknownFunction` carries the identifier as written (before case
/// folding), as the characters of the source text.
#[derive(Debug, PartialEq, Eq)]
pub enum CalcError {
    EmptyExpression,
    InvalidCharacter(char),
    UnknownFunction(Vec<char>),
    MissingLeftParenthesis,
    MissingRightParenthesis,
    InsufficientOperands,
    TooManyOperands,
    IndexOutOfRange,
    AssignmentToNonVariable,
}

/// The mathematical model of an error: the same tags, with the identifier
/// of `UnknownFunction` as a sequence of characters.
pub enum ErrorModel {
    EmptyExpression,
    InvalidCharacter(char),
    UnknownFunction(Seq<char>),
    MissingLeftParenthesis,
    MissingRightParenthesis,
    InsufficientOperands,
    TooManyOperands,
    IndexOutOfRange,
    AssignmentToNonVariable,
}

impl View for CalcError {
    type V = ErrorModel;

    open spec fn view(&self) -> ErrorModel {
        match self {
            CalcError::EmptyExpression => ErrorModel::EmptyExpression,
            CalcError::InvalidCharacter(c) => ErrorModel::InvalidCharacter(*c),
            CalcError::UnknownFunction(name) => ErrorModel::UnknownFunction(name@),
            CalcError::MissingLeftParenthesis => ErrorModel::MissingLeftParenthesis,
            CalcError::MissingRightParenthesis => ErrorModel::MissingRightParenthesis,
            CalcError::InsufficientOperands => ErrorModel::InsufficientOperands,
            CalcError::TooManyOperands => ErrorModel::TooManyOperands,
            CalcError::IndexOutOfRange => ErrorModel::IndexOutOfRange,
            CalcError::AssignmentToNonVariable => ErrorModel::AssignmentToNonVariable,
        }
    }
}

} // verus!

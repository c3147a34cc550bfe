//! The postfix (RPN) evaluator.
//!
//! The evaluator is a step machine over one value stack.  It performs every
//! decision itself — operand pushes, arity checks, boolean and comparison
//! logic, the factorial product, history lookups, assignment write-back and
//! all error cases — and asks the caller for the floating-point results it
//! cannot compute: parsing a numeric literal, the arithmetic and
//! transcendental operations, comparisons, and the conversions between bit
//! patterns and integers.
//!
//! The caller drives the machine: call [`Evaluation::step`] with `None`
//! first; on [`Step::Continue`] call it again with `None`; on
//! [`Step::Request`] compute the request with ordinary binary64 arithmetic
//! and call again with that answer; stop on [`Step::Done`] or
//! [`Step::Failed`].

use vstd::prelude::*;

use crate::errors::CalcError;
use crate::errors::ErrorModel;
use crate::session::Calculator;
use crate::session::SessionModel;
use crate::session::ONE_BITS;
use crate::session::ZERO_BITS;
use crate::token::Operation;
use crate::token::Token;
use vstd::pervasive::unreached;
use vstd::wrapping::i64_specs;

verus! {

/// The outcome of comparing two binary64 values, as IEEE-754 defines it:
/// exactly one of the four relations holds, and `Unordered` holds when
/// either value is a NaN.
#[derive(Clone, Copy, Debug, PartialEq, Eq, Structural)]
pub enum FloatCmp {
    Less,
    Equal,
    Greater,
    Unordered,
}

/// A computation the evaluator asks its caller to run on binary64 values,
/// given as bit patterns.
#[derive(Clone, Copy, Debug, PartialEq, Eq, Structural)]
pub enum MathRequest {
    /// Parse the numeric literal whose text is entry `index` of the lexer's
    /// literal table; answer with the bit pattern of its binary64 value.
    ParseLiteral { index: usize },
    /// Apply the unary operation `op` to the value `a`; answer with the
    /// result's bit pattern.
    Unary { op: Operation, a: u64 },
    /// Apply the binary operation `op` to `a` (left) and `b` (right);
    /// answer with the result's bit pattern.
    Binary { op: Operation, a: u64, b: u64 },
    /// Compare `a` with `b`; answer with the [`FloatCmp`] outcome.
    Compare { a: u64, b: u64 },
    /// Answer whether `a` is truthy, that is, not equal to 0.0.
    Truthy { a: u64 },
    /// Answer whether each of `a` and `b` is truthy.
    TruthyPair { a: u64, b: u64 },
    /// Truncate the value `a` to a signed 64-bit integer, saturating as the
    /// `as i64` cast does; answer with that integer.
    TruncToInt { a: u64 },
    /// Convert the integer `x` to the nearest binary64 value; answer with
    /// its bit pattern.
    IntToBits { x: i64 },
    /// Truncate the value `a` to an unsigned index, as the `as usize` cast
    /// does; answer with that index.
    TruncToIndex { a: u64 },
}

/// The caller's answer to a [`MathRequest`].
#[derive(Clone, Copy, Debug, PartialEq, Eq, Structural)]
pub enum MathAnswer {
    Bits { bits: u64 },
    Cmp { cmp: FloatCmp },
    Flag { truthy: bool },
    FlagPair { a_truthy: bool, b_truthy: bool },
    Int { x: i64 },
    Index { idx: usize },
}

/// What one step of the machine reports.
#[derive(Debug, PartialEq, Eq)]
pub enum Step {
    /// More tokens to process; call `step` again with `None`.
    Continue,
    /// The caller must compute this request and call `step` with the answer.
    Request(MathRequest),
    /// Evaluation succeeded; the result was appended to the session's
    /// history.
    Done { value: u64 },
    /// Evaluation failed; the session's history is unchanged.
    Failed { error: CalcError },
}

/// The mathematical model of a [`Step`].
pub enum StepModel {
    Continue,
    Request(MathRequest),
    Done { value: u64 },
    Failed { error: ErrorModel },
}

impl View for Step {
    type V = StepModel;

    open spec fn view(&self) -> StepModel {
        match self {
            Step::Continue => StepModel::Continue,
            Step::Request(q) => StepModel::Request(*q),
            Step::Done { value } => StepModel::Done { value: *value },
            Step::Failed { error } => (StepModel::Failed { error: error@ }),
        }
    }
}

/// Which answer, if any, the machine is waiting for.
#[derive(Clone, Copy, Debug, PartialEq, Eq, Structural)]
pub enum Phase {
    /// Reading tokens; no answer expected.
    Scan,
    /// Waiting for a bit pattern to push as a plain value.
    AwaitBits,
    /// Waiting for the comparison that decides the relational operation
    /// `op`.
    AwaitCmp { op: Operation },
    /// Waiting for the truthiness of the operand of `not`.
    AwaitFlag,
    /// Waiting for the truthiness of both operands of the boolean operation
    /// `op`.
    AwaitFlagPair { op: Operation },
    /// Waiting for the truncated operand of the factorial.
    AwaitInt,
    /// Waiting for the truncated index of a history lookup.
    AwaitIndex,
    /// Evaluation has ended, in success or failure.
    Halted,
}

/// How the evaluator treats each operation.
#[derive(Clone, Copy, Debug, PartialEq, Eq, Structural)]
pub enum OpClass {
    /// `Identity`: the operand is re-pushed as a plain value.
    Direct,
    /// A unary operation the caller computes.
    UnaryMath,
    /// A binary operation the caller computes.
    BinaryMath,
    /// A relational or equality operation, decided by one comparison.
    CompareOp,
    /// `Not`, decided by the operand's truthiness.
    FlagOp,
    /// `And`, `Nand`, `Or`, `Nor`, decided by both operands' truthiness.
    FlagPairOp,
    /// `Factorial`: truncate, multiply out, convert back.
    FactOp,
    /// `History`: truncate to an index and look the result up.
    HistOp,
    /// `Assignment`: write through the left operand's variable slot.
    AssignOp,
}

/// The class of each operation.
pub open spec fn op_class(op: Operation) -> OpClass {
    match op {
        Operation::Identity => OpClass::Direct,
        Operation::Negation => OpClass::UnaryMath,
        Operation::Not => OpClass::FlagOp,
        Operation::Addition => OpClass::BinaryMath,
        Operation::Subtraction => OpClass::BinaryMath,
        Operation::Multiplication => OpClass::BinaryMath,
        Operation::Division => OpClass::BinaryMath,
        Operation::Modulus => OpClass::BinaryMath,
        Operation::Assignment => OpClass::AssignOp,
        Operation::Equality => OpClass::CompareOp,
        Operation::Inequality => OpClass::CompareOp,
        Operation::Less => OpClass::CompareOp,
        Operation::LessEqual => OpClass::CompareOp,
        Operation::Greater => OpClass::CompareOp,
        Operation::GreaterEqual => OpClass::CompareOp,
        Operation::And => OpClass::FlagPairOp,
        Operation::Nand => OpClass::FlagPairOp,
        Operation::Or => OpClass::FlagPairOp,
        Operation::Nor => OpClass::FlagPairOp,
        Operation::Power => OpClass::BinaryMath,
        Operation::Factorial => OpClass::FactOp,
        Operation::Sin => OpClass::UnaryMath,
        Operation::Cos => OpClass::UnaryMath,
        Operation::Tan => OpClass::UnaryMath,
        Operation::Abs => OpClass::UnaryMath,
        Operation::Sqrt => OpClass::UnaryMath,
        Operation::Radians => OpClass::UnaryMath,
        Operation::Degrees => OpClass::UnaryMath,
        Operation::Ln => OpClass::UnaryMath,
        Operation::Log2 => OpClass::UnaryMath,
        Operation::Log10 => OpClass::UnaryMath,
        Operation::Exp => OpClass::UnaryMath,
        Operation::Sign => OpClass::UnaryMath,
        Operation::History => OpClass::HistOp,
        Operation::Min => OpClass::BinaryMath,
        Operation::Max => OpClass::BinaryMath,
    }
}

/// Executable twin of [`op_class`].
pub fn classify(op: Operation) -> (c: OpClass)
    ensures
        c == op_class(op),
{
    match op {
        Operation::Identity => OpClass::Direct,
        Operation::Negation => OpClass::UnaryMath,
        Operation::Not => OpClass::FlagOp,
        Operation::Addition => OpClass::BinaryMath,
        Operation::Subtraction => OpClass::BinaryMath,
        Operation::Multiplication => OpClass::BinaryMath,
        Operation::Division => OpClass::BinaryMath,
        Operation::Modulus => OpClass::BinaryMath,
        Operation::Assignment => OpClass::AssignOp,
        Operation::Equality => OpClass::CompareOp,
        Operation::Inequality => OpClass::CompareOp,
        Operation::Less => OpClass::CompareOp,
        Operation::LessEqual => OpClass::CompareOp,
        Operation::Greater => OpClass::CompareOp,
        Operation::GreaterEqual => OpClass::CompareOp,
        Operation::And => OpClass::FlagPairOp,
        Operation::Nand => OpClass::FlagPairOp,
        Operation::Or => OpClass::FlagPairOp,
        Operation::Nor => OpClass::FlagPairOp,
        Operation::Power => OpClass::BinaryMath,
        Operation::Factorial => OpClass::FactOp,
        Operation::Sin => OpClass::UnaryMath,
        Operation::Cos => OpClass::UnaryMath,
        Operation::Tan => OpClass::UnaryMath,
        Operation::Abs => OpClass::UnaryMath,
        Operation::Sqrt => OpClass::UnaryMath,
        Operation::Radians => OpClass::UnaryMath,
        Operation::Degrees => OpClass::UnaryMath,
        Operation::Ln => OpClass::UnaryMath,
        Operation::Log2 => OpClass::UnaryMath,
        Operation::Log10 => OpClass::UnaryMath,
        Operation::Exp => OpClass::UnaryMath,
        Operation::Sign => OpClass::UnaryMath,
        Operation::History => OpClass::HistOp,
        Operation::Min => OpClass::BinaryMath,
        Operation::Max => OpClass::BinaryMath,
    }
}

/// How many operands an operation consumes.
pub open spec fn op_arity(op: Operation) -> nat {
    match op_class(op) {
        OpClass::Direct => 1,
        OpClass::UnaryMath => 1,
        OpClass::FlagOp => 1,
        OpClass::FactOp => 1,
        OpClass::HistOp => 1,
        _ => 2,
    }
}

/// The bit pattern that encodes a boolean result: 1.0 for true, 0.0 for
/// false.
pub open spec fn bool_bits(b: bool) -> u64 {
    if b {
        ONE_BITS
    } else {
        ZERO_BITS
    }
}

/// What a relational or equality operation yields for a comparison
/// outcome.  `Unordered` (a NaN operand) makes every relation false except
/// inequality, as IEEE-754 comparisons do.
pub open spec fn cmp_result(op: Operation, c: FloatCmp) -> bool {
    match op {
        Operation::Equality => c is Equal,
        Operation::Inequality => !(c is Equal),
        Operation::Less => c is Less,
        Operation::LessEqual => c is Less || c is Equal,
        Operation::Greater => c is Greater,
        Operation::GreaterEqual => c is Greater || c is Equal,
        _ => false,
    }
}

/// Executable twin of [`cmp_result`].
pub fn cmp_value(op: Operation, c: FloatCmp) -> (r: bool)
    ensures
        r == cmp_result(op, c),
{
    match op {
        Operation::Equality => matches!(c, FloatCmp::Equal),
        Operation::Inequality => !matches!(c, FloatCmp::Equal),
        Operation::Less => matches!(c, FloatCmp::Less),
        Operation::LessEqual => matches!(c, FloatCmp::Less | FloatCmp::Equal),
        Operation::Greater => matches!(c, FloatCmp::Greater),
        Operation::GreaterEqual => matches!(c, FloatCmp::Greater | FloatCmp::Equal),
        _ => false,
    }
}

/// What a boolean operation yields for the truthiness of its operands.
pub open spec fn flags_result(op: Operation, a: bool, b: bool) -> bool {
    match op {
        Operation::And => a && b,
        Operation::Nand => !(a && b),
        Operation::Or => a || b,
        Operation::Nor => !(a || b),
        _ => false,
    }
}

/// Executable twin of [`flags_result`].
pub fn flags_value(op: Operation, a: bool, b: bool) -> (r: bool)
    ensures
        r == flags_result(op, a, b),
{
    match op {
        Operation::And => a && b,
        Operation::Nand => !(a && b),
        Operation::Or => a || b,
        Operation::Nor => !(a || b),
        _ => false,
    }
}

/// The factorial's product, multiplied out exactly as the evaluator runs
/// it: starting from `x` and multiplying by 1, 2, …, `y - 1` in turn, each
/// product wrapping around on 64-bit overflow.
pub open spec fn fact_loop(x: i64, i: i64, y: i64) -> i64
    decreases y - i,
{
    if i >= y {
        x
    } else {
        fact_loop(i64_specs::wrapping_mul(x, i), (i + 1) as i64, y)
    }
}

/// The factorial of the truncated operand: the product 1 · 2 · … · `y`
/// with wrapping 64-bit multiplication, and 1 when `y` is zero or negative
/// (the empty product).
pub open spec fn spec_factorial(y: i64) -> i64 {
    if y <= 0 {
        1
    } else {
        fact_loop(y, 1, y)
    }
}

/// Computes [`spec_factorial`].
pub fn factorial_wrapped(y: i64) -> (r: i64)
    ensures
        r == spec_factorial(y),
{
    if y <= 0 {
        1
    } else {
        let mut acc: i64 = y;
        let mut i: i64 = 1;
        while i < y
            invariant
                1 <= i <= y,
                spec_factorial(y) == fact_loop(acc, i, y),
            decreases y - i,
        {
            acc = acc.wrapping_mul(i);
            i = i + 1;
        }
        acc
    }
}

/// One entry of the value stack: a bit pattern, and the variable slot it
/// was read from, if any.
pub type StackEntry = (u64, Option<usize>);

/// The mathematical model of an evaluation in progress.
#[verifier::ext_equal]
pub struct EvalModel {
    pub rpn: Seq<Token>,
    pub pos: int,
    pub stack: Seq<StackEntry>,
    pub phase: Phase,
}

/// An operand or operator token never asks for more values than its
/// operation consumes, and a variable reference never points past the
/// variable table.
pub open spec fn wf_token(t: Token, nvars: nat) -> bool {
    match t {
        Token::Operator { arity, op, .. } => arity == op_arity(op),
        Token::Function { arity, op } => arity == op_arity(op),
        Token::Operand { var_index, .. } => (var_index matches Some(i) ==> i < nvars),
        _ => true,
    }
}

/// Every token of the postfix sequence is well formed.
pub open spec fn wf_rpn(rpn: Seq<Token>, nvars: nat) -> bool {
    forall|k: int| 0 <= k < rpn.len() ==> wf_token(#[trigger] rpn[k], nvars)
}

/// Every slot reference on the value stack stays inside the variable
/// table.
pub open spec fn wf_stack(stack: Seq<StackEntry>, nvars: nat) -> bool {
    forall|k: int|
        0 <= k < stack.len() ==> ((#[trigger] stack[k]).1 matches Some(i) ==> i < nvars)
}

impl EvalModel {
    /// The machine's own well-formedness: the scan position never passes
    /// the end of the postfix sequence.
    pub open spec fn wf(self) -> bool {
        0 <= self.pos <= self.rpn.len()
    }
}

/// Whether `answer` is the kind of answer the machine awaits in `phase`.
pub open spec fn answer_matches(phase: Phase, answer: Option<MathAnswer>) -> bool {
    match phase {
        Phase::Scan => answer is None,
        Phase::AwaitBits => answer matches Some(MathAnswer::Bits { .. }),
        Phase::AwaitCmp { .. } => answer matches Some(MathAnswer::Cmp { .. }),
        Phase::AwaitFlag => answer matches Some(MathAnswer::Flag { .. }),
        Phase::AwaitFlagPair { .. } => answer matches Some(MathAnswer::FlagPair { .. }),
        Phase::AwaitInt => answer matches Some(MathAnswer::Int { .. }),
        Phase::AwaitIndex => answer matches Some(MathAnswer::Index { .. }),
        Phase::Halted => false,
    }
}

/// What one step does when the machine is scanning and the whole postfix
/// sequence has been consumed.
pub open spec fn spec_step_end(m: EvalModel, s: SessionModel) -> (EvalModel, SessionModel, StepModel) {
    let halted = EvalModel { phase: Phase::Halted, ..m };
    if m.stack.len() > 1 {
        (halted, s, StepModel::Failed { error: ErrorModel::TooManyOperands })
    } else if m.stack.len() == 0 {
        (halted, s, StepModel::Failed { error: ErrorModel::InsufficientOperands })
    } else {
        let value = m.stack[0].0;
        let s2 = SessionModel { results: s.results.push(value), ..s };
        (halted, s2, StepModel::Done { value })
    }
}

/// What one step does when the machine is scanning and reads the operator
/// or function token at `m.pos`, with operation `op`: it pops the
/// operation's operands and either finishes the operation itself or asks
/// the caller for its result.
pub open spec fn spec_step_op(m: EvalModel, s: SessionModel, op: Operation) -> (
    EvalModel,
    SessionModel,
    StepModel,
) {
    let n = op_arity(op);
    let pos2 = m.pos + 1;
    if m.stack.len() < n {
        let halted = EvalModel { pos: pos2, phase: Phase::Halted, ..m };
        (halted, s, StepModel::Failed { error: ErrorModel::InsufficientOperands })
    } else {
        let a = if n == 1 {
            m.stack[m.stack.len() - 1]
        } else {
            m.stack[m.stack.len() - 2]
        };
        let b = m.stack[m.stack.len() - 1];
        let stack2 = m.stack.subrange(0, m.stack.len() - n);
        match op_class(op) {
            OpClass::Direct => {
                let m2 = EvalModel {
                    pos: pos2,
                    stack: stack2.push((a.0, None)),
                    phase: Phase::Scan,
                    ..m
                };
                (m2, s, StepModel::Continue)
            },
            OpClass::UnaryMath => {
                let m2 = EvalModel { pos: pos2, stack: stack2, phase: Phase::AwaitBits, ..m };
                (m2, s, StepModel::Request(MathRequest::Unary { op, a: a.0 }))
            },
            OpClass::BinaryMath => {
                let m2 = EvalModel { pos: pos2, stack: stack2, phase: Phase::AwaitBits, ..m };
                (m2, s, StepModel::Request(MathRequest::Binary { op, a: a.0, b: b.0 }))
            },
            OpClass::CompareOp => {
                let m2 = EvalModel {
                    pos: pos2,
                    stack: stack2,
                    phase: (Phase::AwaitCmp { op }),
                    ..m
                };
                (m2, s, StepModel::Request(MathRequest::Compare { a: a.0, b: b.0 }))
            },
            OpClass::FlagOp => {
                let m2 = EvalModel { pos: pos2, stack: stack2, phase: Phase::AwaitFlag, ..m };
                (m2, s, StepModel::Request(MathRequest::Truthy { a: a.0 }))
            },
            OpClass::FlagPairOp => {
                let m2 = EvalModel {
                    pos: pos2,
                    stack: stack2,
                    phase: (Phase::AwaitFlagPair { op }),
                    ..m
                };
                (m2, s, StepModel::Request(MathRequest::TruthyPair { a: a.0, b: b.0 }))
            },
            OpClass::FactOp => {
                let m2 = EvalModel { pos: pos2, stack: stack2, phase: Phase::AwaitInt, ..m };
                (m2, s, StepModel::Request(MathRequest::TruncToInt { a: a.0 }))
            },
            OpClass::HistOp => {
                let m2 = EvalModel { pos: pos2, stack: stack2, phase: Phase::AwaitIndex, ..m };
                (m2, s, StepModel::Request(MathRequest::TruncToIndex { a: a.0 }))
            },
            OpClass::AssignOp => {
                match a.1 {
                    Some(slot) => {
                        let s2 = SessionModel {
                            vars: s.vars.update(slot as int, (s.vars[slot as int].0, b.0)),
                            ..s
                        };
                        let m2 = EvalModel {
                            pos: pos2,
                            stack: stack2.push((b.0, None)),
                            phase: Phase::Scan,
                            ..m
                        };
                        (m2, s2, StepModel::Continue)
                    },
                    None => {
                        let halted = EvalModel {
                            pos: pos2,
                            stack: stack2,
                            phase: Phase::Halted,
                            ..m
                        };
                        (halted, s, StepModel::Failed {
                            error: ErrorModel::AssignmentToNonVariable,
                        })
                    },
                }
            },
        }
    }
}

/// What one step of the machine does: the next machine state, the next
/// session state, and what the step reports.
pub open spec fn spec_step(m: EvalModel, s: SessionModel, answer: Option<MathAnswer>) -> (
    EvalModel,
    SessionModel,
    StepModel,
) {
    match m.phase {
        Phase::Scan => {
            if m.pos == m.rpn.len() {
                spec_step_end(m, s)
            } else {
                match m.rpn[m.pos] {
                    Token::Operand { bits, var_index, literal } => {
                        match literal {
                            Some(k) => {
                                let m2 = EvalModel {
                                    pos: m.pos + 1,
                                    phase: Phase::AwaitBits,
                                    ..m
                                };
                                (m2, s, StepModel::Request(MathRequest::ParseLiteral { index: k }))
                            },
                            None => {
                                let m2 = EvalModel {
                                    pos: m.pos + 1,
                                    stack: m.stack.push((bits, var_index)),
                                    ..m
                                };
                                (m2, s, StepModel::Continue)
                            },
                        }
                    },
                    Token::Operator { op, .. } => spec_step_op(m, s, op),
                    Token::Function { op, .. } => spec_step_op(m, s, op),
                    _ => {
                        let m2 = EvalModel { pos: m.pos + 1, ..m };
                        (m2, s, StepModel::Continue)
                    },
                }
            }
        },
        Phase::AwaitBits => {
            match answer {
                Some(MathAnswer::Bits { bits }) => {
                    let m2 = EvalModel {
                        stack: m.stack.push((bits, None)),
                        phase: Phase::Scan,
                        ..m
                    };
                    (m2, s, StepModel::Continue)
                },
                _ => (m, s, StepModel::Continue),
            }
        },
        Phase::AwaitCmp { op } => {
            match answer {
                Some(MathAnswer::Cmp { cmp }) => {
                    let m2 = EvalModel {
                        stack: m.stack.push((bool_bits(cmp_result(op, cmp)), None)),
                        phase: Phase::Scan,
                        ..m
                    };
                    (m2, s, StepModel::Continue)
                },
                _ => (m, s, StepModel::Continue),
            }
        },
        Phase::AwaitFlag => {
            match answer {
                Some(MathAnswer::Flag { truthy }) => {
                    let m2 = EvalModel {
                        stack: m.stack.push((bool_bits(!truthy), None)),
                        phase: Phase::Scan,
                        ..m
                    };
                    (m2, s, StepModel::Continue)
                },
                _ => (m, s, StepModel::Continue),
            }
        },
        Phase::AwaitFlagPair { op } => {
            match answer {
                Some(MathAnswer::FlagPair { a_truthy, b_truthy }) => {
                    let m2 = EvalModel {
                        stack: m.stack.push((bool_bits(flags_result(op, a_truthy, b_truthy)), None)),
                        phase: Phase::Scan,
                        ..m
                    };
                    (m2, s, StepModel::Continue)
                },
                _ => (m, s, StepModel::Continue),
            }
        },
        Phase::AwaitInt => {
            match answer {
                Some(MathAnswer::Int { x }) => {
                    let m2 = EvalModel { phase: Phase::AwaitBits, ..m };
                    (m2, s, StepModel::Request(MathRequest::IntToBits { x: spec_factorial(x) }))
                },
                _ => (m, s, StepModel::Continue),
            }
        },
        Phase::AwaitIndex => {
            match answer {
                Some(MathAnswer::Index { idx }) => {
                    if idx < 1 || idx > s.results.len() {
                        let halted = EvalModel { phase: Phase::Halted, ..m };
                        (halted, s, StepModel::Failed { error: ErrorModel::IndexOutOfRange })
                    } else {
                        let m2 = EvalModel {
                            stack: m.stack.push((s.results[idx - 1], None)),
                            phase: Phase::Scan,
                            ..m
                        };
                        (m2, s, StepModel::Continue)
                    }
                },
                _ => (m, s, StepModel::Continue),
            }
        },
        Phase::Halted => (m, s, StepModel::Continue),
    }
}

/// An evaluation of one postfix token sequence, in progress.
pub struct Evaluation {
    rpn: Vec<Token>,
    pos: usize,
    stack: Vec<StackEntry>,
    phase: Phase,
}

impl View for Evaluation {
    type V = EvalModel;

    closed spec fn view(&self) -> EvalModel {
        EvalModel { rpn: self.rpn@, pos: self.pos as int, stack: self.stack@, phase: self.phase }
    }
}

impl Evaluation {
    /// Starts evaluating the postfix token sequence `rpn`.
    pub fn new(rpn: Vec<Token>) -> (ev: Evaluation)
        ensures
            ev@.rpn == rpn@,
            ev@.pos == 0,
            ev@.stack == Seq::<StackEntry>::empty(),
            ev@.phase == Phase::Scan,
            ev@.wf(),
    {
        let ev = Evaluation { rpn, pos: 0, stack: Vec::new(), phase: Phase::Scan };
        proof {
            assert(ev@.stack =~= Seq::<StackEntry>::empty());
        }
        ev
    }

    /// The phase the machine is in, to let a caller see which answer is
    /// expected next.
    pub fn phase(&self) -> (p: Phase)
        ensures
            p == self@.phase,
    {
        self.phase
    }

    /// Runs one step of the machine against the session `calc`: reads one
    /// token, or consumes the caller's answer to the last request.
    ///
    /// The step reported and the new states of the machine and the session
    /// are exactly those of [`spec_step`].
    pub fn step(&mut self, calc: &mut Calculator, answer: Option<MathAnswer>) -> (r: Step)
        requires
            old(self)@.wf(),
            old(self)@.phase != Phase::Halted,
            answer_matches(old(self)@.phase, answer),
            wf_rpn(old(self)@.rpn, old(calc)@.vars.len()),
            wf_stack(old(self)@.stack, old(calc)@.vars.len()),
        ensures
            ({
                let (m2, s2, r2) = spec_step(old(self)@, old(calc)@, answer);
                final(self)@ =~= m2 && final(calc)@ =~= s2 && r@ == r2
            }),
            final(self)@.wf(),
            final(self)@.rpn == old(self)@.rpn,
            final(calc)@.vars.len() == old(calc)@.vars.len(),
            wf_rpn(final(self)@.rpn, final(calc)@.vars.len()),
            wf_stack(final(self)@.stack, final(calc)@.vars.len()),
            old(calc)@.results.len() <= final(calc)@.results.len(),
    {
        match self.phase {
            Phase::Scan => {
                if self.pos == self.rpn.len() {
                    self.phase = Phase::Halted;
                    if self.stack.len() > 1 {
                        Step::Failed { error: CalcError::TooManyOperands }
                    } else if self.stack.len() == 0 {
                        Step::Failed { error: CalcError::InsufficientOperands }
                    } else {
                        let value = self.stack[0].0;
                        calc.push_result(value);
                        Step::Done { value }
                    }
                } else {
                    let t = self.rpn[self.pos];
                    self.pos = self.pos + 1;
                    match t {
                        Token::Operand { bits, var_index, literal } => {
                            match literal {
                                Some(k) => {
                                    self.phase = Phase::AwaitBits;
                                    Step::Request(MathRequest::ParseLiteral { index: k })
                                },
                                None => {
                                    self.stack.push((bits, var_index));
                                    Step::Continue
                                },
                            }
                        },
                        Token::Operator { op, .. } => self.step_op(calc, op),
                        Token::Function { op, .. } => self.step_op(calc, op),
                        _ => Step::Continue,
                    }
                }
            },
            Phase::AwaitBits => {
                let bits = match answer {
                    Some(MathAnswer::Bits { bits }) => bits,
                    _ => unreached(),
                };
                self.stack.push((bits, None));
                self.phase = Phase::Scan;
                Step::Continue
            },
            Phase::AwaitCmp { op } => {
                let c = match answer {
                    Some(MathAnswer::Cmp { cmp }) => cmp,
                    _ => unreached(),
                };
                let v = cmp_value(op, c);
                self.stack.push((if v { ONE_BITS } else { ZERO_BITS }, None));
                self.phase = Phase::Scan;
                Step::Continue
            },
            Phase::AwaitFlag => {
                let t = match answer {
                    Some(MathAnswer::Flag { truthy }) => truthy,
                    _ => unreached(),
                };
                self.stack.push((if !t { ONE_BITS } else { ZERO_BITS }, None));
                self.phase = Phase::Scan;
                Step::Continue
            },
            Phase::AwaitFlagPair { op } => {
                let (ta, tb) = match answer {
                    Some(MathAnswer::FlagPair { a_truthy, b_truthy }) => (a_truthy, b_truthy),
                    _ => unreached(),
                };
                let v = flags_value(op, ta, tb);
                self.stack.push((if v { ONE_BITS } else { ZERO_BITS }, None));
                self.phase = Phase::Scan;
                Step::Continue
            },
            Phase::AwaitInt => {
                let x = match answer {
                    Some(MathAnswer::Int { x }) => x,
                    _ => unreached(),
                };
                let p = factorial_wrapped(x);
                self.phase = Phase::AwaitBits;
                Step::Request(MathRequest::IntToBits { x: p })
            },
            Phase::AwaitIndex => {
                let idx = match answer {
                    Some(MathAnswer::Index { idx }) => idx,
                    _ => unreached(),
                };
                if idx < 1 || idx > calc.result_count() {
                    self.phase = Phase::Halted;
                    Step::Failed { error: CalcError::IndexOutOfRange }
                } else {
                    let v = calc.result_at(idx - 1);
                    self.stack.push((v, None));
                    self.phase = Phase::Scan;
                    Step::Continue
                }
            },
            Phase::Halted => unreached(),
        }
    }

    /// Pops the operands of `op` and runs or delegates it; the scan
    /// position has already moved past the operator's token.
    fn step_op(&mut self, calc: &mut Calculator, op: Operation) -> (r: Step)
        requires
            old(self)@.wf(),
            old(self)@.phase == Phase::Scan,
            0 < old(self)@.pos <= old(self)@.rpn.len(),
            wf_stack(old(self)@.stack, old(calc)@.vars.len()),
        ensures
            ({
                let before = EvalModel { pos: old(self)@.pos - 1, ..old(self)@ };
                let (m2, s2, r2) = spec_step_op(before, old(calc)@, op);
                final(self)@ =~= m2 && final(calc)@ =~= s2 && r@ == r2
            }),
            final(self)@.wf(),
            final(self)@.rpn == old(self)@.rpn,
            final(calc)@.vars.len() == old(calc)@.vars.len(),
            final(calc)@.results == old(calc)@.results,
            wf_stack(final(self)@.stack, final(calc)@.vars.len()),
    {
        let c = classify(op);
        let n: usize = match c {
            OpClass::Direct => 1,
            OpClass::UnaryMath => 1,
            OpClass::FlagOp => 1,
            OpClass::FactOp => 1,
            OpClass::HistOp => 1,
            _ => 2,
        };
        if self.stack.len() < n {
            self.phase = Phase::Halted;
            return Step::Failed { error: CalcError::InsufficientOperands };
        }
        let b = self.stack.pop().unwrap();
        let a = if n == 2 {
            self.stack.pop().unwrap()
        } else {
            b
        };
        match c {
            OpClass::Direct => {
                self.stack.push((a.0, None));
                Step::Continue
            },
            OpClass::UnaryMath => {
                self.phase = Phase::AwaitBits;
                Step::Request(MathRequest::Unary { op, a: a.0 })
            },
            OpClass::BinaryMath => {
                self.phase = Phase::AwaitBits;
                Step::Request(MathRequest::Binary { op, a: a.0, b: b.0 })
            },
            OpClass::CompareOp => {
                self.phase = Phase::AwaitCmp { op };
                Step::Request(MathRequest::Compare { a: a.0, b: b.0 })
            },
            OpClass::FlagOp => {
                self.phase = Phase::AwaitFlag;
                Step::Request(MathRequest::Truthy { a: a.0 })
            },
            OpClass::FlagPairOp => {
                self.phase = Phase::AwaitFlagPair { op };
                Step::Request(MathRequest::TruthyPair { a: a.0, b: b.0 })
            },
            OpClass::FactOp => {
                self.phase = Phase::AwaitInt;
                Step::Request(MathRequest::TruncToInt { a: a.0 })
            },
            OpClass::HistOp => {
                self.phase = Phase::AwaitIndex;
                Step::Request(MathRequest::TruncToIndex { a: a.0 })
            },
            OpClass::AssignOp => {
                match a.1 {
                    Some(slot) => {
                        calc.set_variable(slot, b.0);
                        self.stack.push((b.0, None));
                        Step::Continue
                    },
                    None => {
                        self.phase = Phase::Halted;
                        Step::Failed { error: CalcError::AssignmentToNonVariable }
                    },
                }
            },
        }
    }
}

} // verus!

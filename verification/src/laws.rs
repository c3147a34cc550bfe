//! Laws of the whole pipeline: what holds of lexing, conversion and
//! evaluation taken together, for every expression and every session.

use vstd::prelude::*;

use crate::errors::ErrorModel;
use crate::eval::answer_matches;
use crate::eval::spec_step;
use crate::eval::spec_step_op;
use crate::eval::EvalModel;
use crate::eval::MathAnswer;
use crate::eval::Phase;
use crate::eval::StepModel;
use crate::lexer::spec_tokenize;
use crate::lexer::LexOut;
use crate::session::SessionModel;
use crate::shunting::spec_to_postfix;
use crate::token::Token;

verus! {

/// How many more steps the machine can take: three per unread token, plus
/// the tail of the operation in flight.
pub open spec fn machine_measure(m: EvalModel) -> int {
    let extra: int = match m.phase {
        Phase::AwaitInt => 2,
        Phase::Scan => 0,
        Phase::Halted => 0,
        _ => 1,
    };
    3 * (m.rpn.len() - m.pos) + extra
}

/// The answer a run feeds the machine next: none while scanning, the next
/// unconsumed answer while an operation is in flight.
pub open spec fn next_answer(m: EvalModel, answers: Seq<MathAnswer>, k: int) -> Option<MathAnswer> {
    if m.phase is Scan {
        None
    } else {
        Some(answers[k])
    }
}

/// How a full run of the machine ends.
pub enum RunOutcome {
    /// The machine halted: `last` is its final report — success or failure
    /// — and `sess` the session it left behind.
    Finished { last: StepModel, sess: SessionModel },
    /// The answer sequence ran out before the machine halted.
    ShortOfAnswers,
}

/// One step of the machine preserves its well-formedness, never touches
/// the token sequence, appends to the history exactly when it reports
/// success, and otherwise brings the machine strictly closer to halting.
pub proof fn lemma_step_effects(m: EvalModel, s: SessionModel, a: Option<MathAnswer>)
    requires
        m.wf(),
        m.phase != Phase::Halted,
        answer_matches(m.phase, a),
    ensures
        ({
            let (m2, s2, r) = spec_step(m, s, a);
            &&& m2.wf()
            &&& m2.rpn == m.rpn
            &&& (match r {
                StepModel::Done { value } => s2.results == s.results.push(value) && m2.phase
                    is Halted,
                StepModel::Failed { .. } => s2.results == s.results && m2.phase is Halted,
                _ => s2.results == s.results && !(m2.phase is Halted) && machine_measure(m2)
                    < machine_measure(m),
            })
        }),
{
    let (m2, s2, r) = spec_step(m, s, a);
    if m.phase is Scan && m.pos < m.rpn.len() {
        match m.rpn[m.pos] {
            Token::Operator { op, .. } => {
                let sopr = spec_step_op(m, s, op);
            },
            Token::Function { op, .. } => {
                let sopr = spec_step_op(m, s, op);
            },
            _ => {},
        }
    }
}

/// A full run of the machine from state `m` against session `s`, feeding
/// the answers in order from position `k` on: the machine's final report
/// and session, or [`RunOutcome::ShortOfAnswers`].
pub open spec fn spec_run(
    m: EvalModel,
    s: SessionModel,
    answers: Seq<MathAnswer>,
    k: int,
) -> RunOutcome
    decreases machine_measure(m),
    when m.wf() && 0 <= k
    via spec_run_decreases
{
    if m.phase is Halted {
        RunOutcome::Finished { last: StepModel::Continue, sess: s }
    } else if !(m.phase is Scan) && !(0 <= k < answers.len() && answer_matches(
        m.phase,
        next_answer(m, answers, k),
    )) {
        RunOutcome::ShortOfAnswers
    } else {
        let a = next_answer(m, answers, k);
        let k2: int = if m.phase is Scan {
            k
        } else {
            k + 1
        };
        let (m2, s2, r) = spec_step(m, s, a);
        match r {
            StepModel::Done { .. } => RunOutcome::Finished { last: r, sess: s2 },
            StepModel::Failed { .. } => RunOutcome::Finished { last: r, sess: s2 },
            _ => spec_run(m2, s2, answers, k2),
        }
    }
}

#[via_fn]
proof fn spec_run_decreases(m: EvalModel, s: SessionModel, answers: Seq<MathAnswer>, k: int) {
    if !(m.phase is Halted) {
        if m.phase is Scan || (0 <= k < answers.len() && answer_matches(
            m.phase,
            next_answer(m, answers, k),
        )) {
            lemma_step_effects(m, s, next_answer(m, answers, k));
        }
    }
}

/// The machine state that starts evaluating a postfix sequence.
pub open spec fn initial_machine(rpn: Seq<Token>) -> EvalModel {
    EvalModel { rpn, pos: 0, stack: Seq::empty(), phase: Phase::Scan }
}

/// How evaluating one expression against a session ends.
pub enum PipelineOut {
    /// The expression's value, and the session afterwards: the history
    /// grown by that value, and the variables as lexing and any
    /// assignments left them.
    Value { value: u64, sess: SessionModel },
    /// The first error, and the session afterwards: the history unchanged,
    /// the variables as they stood when the error was found.
    Error { error: ErrorModel, sess: SessionModel },
    /// The answer sequence ran out before evaluation ended.
    ShortOfAnswers,
}

/// Evaluating one expression: lexing, conversion to postfix, and the
/// machine run, each stage stopping at the first error.  `answers` are the
/// caller's answers to the machine's arithmetic requests, in order.
pub open spec fn spec_evaluate(
    text: Seq<char>,
    sess: SessionModel,
    answers: Seq<MathAnswer>,
) -> PipelineOut {
    match spec_tokenize(text, sess.vars) {
        LexOut::Fail { error, vars } => PipelineOut::Error {
            error,
            sess: SessionModel { vars, ..sess },
        },
        LexOut::Done { state } => {
            let lexed = SessionModel { vars: state.vars, ..sess };
            match spec_to_postfix(state.toks) {
                Err(error) => PipelineOut::Error { error, sess: lexed },
                Ok(rpn) => match spec_run(initial_machine(rpn), lexed, answers, 0) {
                    RunOutcome::Finished { last: StepModel::Done { value }, sess } => (
                    PipelineOut::Value { value, sess }),
                    RunOutcome::Finished { last: StepModel::Failed { error }, sess } => (
                    PipelineOut::Error { error, sess }),
                    RunOutcome::Finished { .. } => PipelineOut::ShortOfAnswers,
                    RunOutcome::ShortOfAnswers => PipelineOut::ShortOfAnswers,
                },
            }
        },
    }
}

/// Law: evaluation is deterministic, and so idempotent across sessions.
/// The outcome of an expression is a function of the expression's text,
/// the session's variables and history, and the answers given to the
/// arithmetic requests: two sessions in equal states, given equal
/// answers, take the identical expression to the identical outcome — in
/// particular, re-running an expression against a fresh session repeats
/// its value.  (The answers themselves are the caller's floating-point
/// arithmetic, which the library does not fix.)
pub proof fn lemma_evaluation_deterministic(
    text: Seq<char>,
    s1: SessionModel,
    s2: SessionModel,
    a1: Seq<MathAnswer>,
    a2: Seq<MathAnswer>,
)
    requires
        s1 == s2,
        a1 == a2,
    ensures
        spec_evaluate(text, s1, a1) == spec_evaluate(text, s2, a2),
{
}

/// A machine run appends to the history exactly its successful value —
/// one entry, at the end — and a failed run appends nothing.
pub proof fn lemma_run_session(m: EvalModel, s: SessionModel, answers: Seq<MathAnswer>, k: int)
    requires
        m.wf(),
        0 <= k,
    ensures
        (match spec_run(m, s, answers, k) {
            RunOutcome::Finished { last: StepModel::Done { value }, sess } => sess.results
                == s.results.push(value),
            RunOutcome::Finished { last: StepModel::Failed { .. }, sess } => sess.results
                == s.results,
            _ => true,
        }),
    decreases machine_measure(m),
{
    if m.phase is Halted {
    } else if !(m.phase is Scan) && !(0 <= k < answers.len() && answer_matches(
        m.phase,
        next_answer(m, answers, k),
    )) {
    } else {
        let a = next_answer(m, answers, k);
        let k2: int = if m.phase is Scan {
            k
        } else {
            k + 1
        };
        let (m2, s2, r) = spec_step(m, s, a);
        lemma_step_effects(m, s, a);
        match r {
            StepModel::Done { .. } => {},
            StepModel::Failed { .. } => {},
            _ => {
                lemma_run_session(m2, s2, answers, k2);
            },
        }
    }
}

/// Law: a failed evaluation leaves the history untouched — no result is
/// recorded when any stage fails — while a successful one appends exactly
/// its value, once, at the end.
pub proof fn lemma_session_integrity(
    text: Seq<char>,
    sess: SessionModel,
    answers: Seq<MathAnswer>,
)
    ensures
        (match spec_evaluate(text, sess, answers) {
            PipelineOut::Value { value, sess: s2 } => s2.results == sess.results.push(value),
            PipelineOut::Error { error, sess: s2 } => s2.results == sess.results,
            PipelineOut::ShortOfAnswers => true,
        }),
{
    match spec_tokenize(text, sess.vars) {
        LexOut::Fail { error, vars } => {},
        LexOut::Done { state } => {
            let lexed = SessionModel { vars: state.vars, ..sess };
            match spec_to_postfix(state.toks) {
                Err(error) => {},
                Ok(rpn) => {
                    lemma_run_session(initial_machine(rpn), lexed, answers, 0);
                },
            }
        },
    }
}

} // verus!

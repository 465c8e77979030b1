//! Evaluating a formula with a stack.
//!
//! Tokens are taken left to right. An operand is pushed. Any other token
//! needs two values on the stack: an operator replaces them by its result,
//! the value pushed first being its left operand. A formula has a value if
//! it leaves exactly one value on the stack.
//!
//! Arithmetic wraps around at 32 bits. Division or remainder by zero is an
//! error of the formula like any other: it is reported for the line at hand
//! and never ends a run.

use vstd::prelude::*;
use vstd::string::StringExecFns;
use crate::lexer::{split, tokenize};
use crate::number::{decimal, natural_to_string};
use crate::token::{classify_spec, texts, Token, TokenKind};

verus! {

/// Why a formula has no value. Positions count tokens from 1.
#[allow(inconsistent_fields)]
#[derive(Debug, Clone, Copy, PartialEq, Eq, Structural)]
pub enum EvalError {
    /// The stack has the wrong shape: fewer than two values for the token at
    /// `position` that is no operand, or, with no position, not exactly one
    /// value at the end of the formula.
    InvalidSyntax { position: Option<usize> },
    /// The token at `position` is neither an operand nor an operator.
    InvalidToken { position: usize },
    /// The operator at `position` divides by zero.
    DivisionByZero { position: usize },
}

impl EvalError {
    /// The text of `message`.
    pub open spec fn message_spec(self) -> Seq<char> {
        match self {
            EvalError::InvalidSyntax { position: Some(p) } => "invalid syntax at "@ + decimal(
                p as int,
            ),
            EvalError::InvalidSyntax { position: None } => "invalid syntax"@,
            EvalError::InvalidToken { position } => "invalid token at "@ + decimal(position as int),
            EvalError::DivisionByZero { position } => "division by zero at "@ + decimal(
                position as int,
            ),
        }
    }

    /// A description of the error for people.
    pub fn message(&self) -> (text: String)
        ensures
            text@ == self.message_spec(),
    {
        match self {
            EvalError::InvalidSyntax { position: Some(p) } => located("invalid syntax at ", *p),
            EvalError::InvalidSyntax { position: None } => String::from_str("invalid syntax"),
            EvalError::InvalidToken { position } => located("invalid token at ", *position),
            EvalError::DivisionByZero { position } => located("division by zero at ", *position),
        }
    }
}

/// `what` followed by `position` in base ten.
fn located(what: &str, position: usize) -> (text: String)
    ensures
        text@ == what@ + decimal(position as int),
{
    let mut text: String = String::from_str(what);
    let digits: String = natural_to_string(position as u64);
    text.append(digits.as_str());
    text
}

/// What the token `token` at `position` makes of `stack`: the new stack, or
/// the error that ends the evaluation.
pub open spec fn step_spec(stack: Seq<i32>, token: Seq<char>, position: usize) -> Result<
    Seq<i32>,
    EvalError,
> {
    match classify_spec(token) {
        TokenKind::Operand(value) => Ok(stack.push(value)),
        kind => if stack.len() < 2 {
            Err(EvalError::InvalidSyntax { position: Some(position) })
        } else {
            match kind {
                TokenKind::Operator(operator) => {
                    let x = stack[stack.len() - 2];
                    let y = stack[stack.len() - 1];
                    match operator.apply_spec(x, y) {
                        Some(value) => Ok(stack.take(stack.len() - 2).push(value)),
                        None => Err(EvalError::DivisionByZero { position }),
                    }
                },
                _ => Err(EvalError::InvalidToken { position }),
            }
        },
    }
}

/// The stack after all of `tokens`, or the first error on the way.
pub open spec fn run(tokens: Seq<Seq<char>>) -> Result<Seq<i32>, EvalError>
    decreases tokens.len(),
{
    if tokens.len() == 0 {
        Ok(Seq::empty())
    } else {
        match run(tokens.drop_last()) {
            Ok(stack) => step_spec(stack, tokens.last(), tokens.len() as usize),
            Err(error) => Err(error),
        }
    }
}

/// The value of a formula with the tokens `tokens`.
pub open spec fn evaluate(tokens: Seq<Seq<char>>) -> Result<i32, EvalError> {
    match run(tokens) {
        Ok(stack) => if stack.len() == 1 {
            Ok(stack[0])
        } else {
            Err(EvalError::InvalidSyntax { position: None })
        },
        Err(error) => Err(error),
    }
}

/// The value of `formula`.
pub open spec fn outcome(formula: Seq<char>) -> Result<i32, EvalError> {
    evaluate(split(formula))
}

/// How many of `tokens` are taken before the evaluation ends: all of them,
/// or those before the token that fails.
pub open spec fn completed(tokens: Seq<Seq<char>>) -> nat
    decreases tokens.len(),
{
    if tokens.len() == 0 || run(tokens) is Ok {
        tokens.len()
    } else {
        completed(tokens.drop_last())
    }
}

/// The state of an evaluation between two tokens.
pub struct Snapshot {
    /// The tokens not yet taken, left to right.
    pub remaining: Seq<Seq<char>>,
    /// The stack, bottom first.
    pub stack: Seq<i32>,
}

/// The state after the first `taken` of `tokens`.
pub open spec fn snapshot_after(tokens: Seq<Seq<char>>, taken: int) -> Snapshot {
    Snapshot {
        remaining: tokens.skip(taken),
        stack: match run(tokens.take(taken)) {
            Ok(stack) => stack,
            Err(_) => Seq::empty(),
        },
    }
}

/// The trace of an evaluation of `tokens`: the state after each token that
/// was taken without error.
pub open spec fn trace_of(tokens: Seq<Seq<char>>) -> Seq<Snapshot> {
    Seq::new(completed(tokens), |i: int| snapshot_after(tokens, i + 1))
}

/// Once a token has failed, the tokens after it change nothing.
pub proof fn lemma_error_persists(tokens: Seq<Seq<char>>, taken: int)
    requires
        0 <= taken <= tokens.len(),
        run(tokens.take(taken)) is Err,
    ensures
        run(tokens) == run(tokens.take(taken)),
    decreases tokens.len(),
{
    if taken == tokens.len() {
        assert(tokens.take(taken) == tokens);
    } else {
        assert(tokens.drop_last().take(taken) == tokens.take(taken));
        lemma_error_persists(tokens.drop_last(), taken);
    }
}

/// The evaluation takes `taken` tokens if it gets that far and either no
/// token is left or the next one fails.
pub proof fn lemma_completed(tokens: Seq<Seq<char>>, taken: int)
    requires
        0 <= taken <= tokens.len(),
        run(tokens.take(taken)) is Ok,
        taken < tokens.len() ==> run(tokens.take(taken + 1)) is Err,
    ensures
        completed(tokens) == taken,
    decreases tokens.len(),
{
    if taken == tokens.len() {
        assert(tokens.take(taken) == tokens);
    } else {
        lemma_error_persists(tokens, taken + 1);
        let shorter = tokens.drop_last();
        assert(shorter.take(taken) == tokens.take(taken));
        if taken < shorter.len() {
            assert(shorter.take(taken + 1) == tokens.take(taken + 1));
        }
        lemma_completed(shorter, taken);
    }
}

/// Takes one token: pushes an operand, or applies an operator to the two
/// topmost values of `stack`. On an error the stack is left as it was.
pub fn step(stack: &mut Vec<i32>, token: &Token, position: usize) -> (result: Result<
    (),
    EvalError,
>)
    ensures
        match step_spec(old(stack)@, token@, position) {
            Ok(next) => result is Ok && final(stack)@ == next,
            Err(error) => result == Err::<(), EvalError>(error) && final(stack)@ == old(stack)@,
        },
{
    match token.classify() {
        TokenKind::Operand(value) => {
            stack.push(value);
            Ok(())
        },
        kind => {
            let n: usize = stack.len();
            if n < 2 {
                return Err(EvalError::InvalidSyntax { position: Some(position) });
            }
            match kind {
                TokenKind::Operator(operator) => {
                    let x: i32 = stack[n - 2];
                    let y: i32 = stack[n - 1];
                    match operator.apply(x, y) {
                        Some(value) => {
                            stack.pop();
                            stack.pop();
                            stack.push(value);
                            Ok(())
                        },
                        None => Err(EvalError::DivisionByZero { position }),
                    }
                },
                _ => Err(EvalError::InvalidToken { position }),
            }
        },
    }
}

/// One entry of a trace: the state of the evaluation after a token.
#[derive(Debug, PartialEq, Eq)]
pub struct TraceRecord {
    /// The tokens not yet taken, left to right.
    pub remaining: Vec<Token>,
    /// The stack, bottom first.
    pub stack: Vec<i32>,
}

impl View for TraceRecord {
    type V = Snapshot;

    open spec fn view(&self) -> Snapshot {
        Snapshot { remaining: texts(self.remaining@), stack: self.stack@ }
    }
}

/// The states that the entries of `trace` record.
pub open spec fn snapshots(trace: Seq<TraceRecord>) -> Seq<Snapshot> {
    Seq::new(trace.len(), |i: int| trace[i]@)
}

/// The result of evaluating a formula, with the trace where one was asked
/// for.
#[derive(Debug, PartialEq, Eq)]
pub struct Evaluation {
    /// The value of the formula, or why it has none.
    pub result: Result<i32, EvalError>,
    /// The state after each token taken; empty unless the calculator is
    /// verbose.
    pub trace: Vec<TraceRecord>,
}

/// A copy of the tokens of `tokens` from index `from` on.
fn tokens_from(tokens: &[Token], from: usize) -> (tail: Vec<Token>)
    requires
        from <= tokens.len(),
    ensures
        texts(tail@) == texts(tokens@).skip(from as int),
{
    let mut tail: Vec<Token> = Vec::new();
    let mut i: usize = from;
    while i < tokens.len()
        invariant
            from <= i <= tokens.len(),
            tail.len() == i - from,
            forall|j: int| 0 <= j < tail.len() ==> (#[trigger] tail[j])@ == tokens[from + j]@,
        decreases tokens.len() - i,
    {
        tail.push(tokens[i].clone());
        i += 1;
    }
    tail
}

/// A calculator for formulas in reverse Polish notation.
pub struct RpnCalculator(bool);

impl RpnCalculator {
    /// Whether the calculator records a trace.
    pub closed spec fn verbose(&self) -> bool {
        self.0
    }

    /// A calculator that records a trace if `verbose` is set.
    pub fn new(verbose: bool) -> (calculator: Self)
        ensures
            calculator.verbose() == verbose,
    {
        Self(verbose)
    }

    /// Whether the calculator records a trace.
    pub fn is_verbose(&self) -> (verbose: bool)
        ensures
            verbose == self.verbose(),
    {
        self.0
    }

    /// The value of `formula`, or why it has none. No trace is handed out,
    /// so none is recorded: for a trace, see `eval_traced`.
    pub fn eval(&self, formula: &str) -> (result: Result<i32, EvalError>)
        ensures
            result == outcome(formula@),
    {
        let tokens: Vec<Token> = tokenize(formula);
        RpnCalculator(false).eval_inner(tokens.as_slice()).result
    }

    /// Evaluates `formula` and, if the calculator is verbose, records the
    /// state after each token taken.
    pub fn eval_traced(&self, formula: &str) -> (evaluation: Evaluation)
        ensures
            evaluation.result == outcome(formula@),
            snapshots(evaluation.trace@) == if self.verbose() {
                trace_of(split(formula@))
            } else {
                Seq::empty()
            },
    {
        let tokens: Vec<Token> = tokenize(formula);
        self.eval_inner(tokens.as_slice())
    }

    /// Evaluates the formula made of `tokens`.
    pub fn eval_inner(&self, tokens: &[Token]) -> (evaluation: Evaluation)
        ensures
            evaluation.result == evaluate(texts(tokens@)),
            snapshots(evaluation.trace@) == if self.verbose() {
                trace_of(texts(tokens@))
            } else {
                Seq::empty()
            },
    {
        let ghost all = texts(tokens@);
        let mut stack: Vec<i32> = Vec::new();
        let mut trace: Vec<TraceRecord> = Vec::new();
        let mut pos: usize = 0;
        while pos < tokens.len()
            invariant
                pos <= tokens.len(),
                all == texts(tokens@),
                run(all.take(pos as int)) == Ok::<Seq<i32>, EvalError>(stack@),
                snapshots(trace@) == if self.verbose() {
                    Seq::new(pos as nat, |i: int| snapshot_after(all, i + 1))
                } else {
                    Seq::empty()
                },
            decreases tokens.len() - pos,
        {
            assert(all.take(pos + 1).drop_last() == all.take(pos as int));
            pos += 1;
            match step(&mut stack, &tokens[pos - 1], pos) {
                Ok(()) => {},
                Err(error) => {
                    proof {
                        lemma_error_persists(all, pos as int);
                        lemma_completed(all, pos - 1);
                    }
                    return Evaluation { result: Err(error), trace };
                },
            }
            if self.0 {
                let ghost recorded = snapshots(trace@);
                trace.push(TraceRecord { remaining: tokens_from(tokens, pos), stack: stack.clone() });
                assert(snapshots(trace@) == recorded.push(snapshot_after(all, pos as int)));
            }
        }
        proof {
            assert(all.take(pos as int) == all);
            lemma_completed(all, pos as int);
        }
        let result: Result<i32, EvalError> = if stack.len() == 1 {
            Ok(stack[0])
        } else {
            Err(EvalError::InvalidSyntax { position: None })
        };
        Evaluation { result, trace }
    }
}

} // verus!

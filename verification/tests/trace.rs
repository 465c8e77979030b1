use rpn_calc::eval::step;
use rpn_calc::lexer::tokenize;
use rpn_calc::{EvalError, Evaluation, Operator, RpnCalculator, Token, TokenKind, TraceRecord};

fn shown(record: &TraceRecord) -> (Vec<String>, Vec<i32>) {
    let remaining = record.remaining.iter().map(|token| token.chars().iter().collect()).collect();
    (remaining, record.stack.clone())
}

fn strings(list: &[&str]) -> Vec<String> {
    list.iter().map(|w| w.to_string()).collect()
}

#[test]
fn quiet_calculator_records_nothing() {
    let evaluation: Evaluation = RpnCalculator::new(false).eval_traced("2 3 +");
    assert_eq!(evaluation.result, Ok(5));
    assert!(evaluation.trace.is_empty());
}

#[test]
fn verbose_calculator_records_the_state_after_each_token() {
    let evaluation = RpnCalculator::new(true).eval_traced("2 3 +");
    assert_eq!(evaluation.result, Ok(5));
    assert_eq!(evaluation.trace.len(), 3);
    assert_eq!(shown(&evaluation.trace[0]), (strings(&["3", "+"]), vec![2]));
    assert_eq!(shown(&evaluation.trace[1]), (strings(&["+"]), vec![2, 3]));
    assert_eq!(shown(&evaluation.trace[2]), (strings(&[]), vec![5]));
}

#[test]
fn trace_stops_before_the_token_that_fails() {
    let evaluation = RpnCalculator::new(true).eval_traced("1 + 2");
    assert_eq!(evaluation.result, Err(EvalError::InvalidSyntax { position: Some(2) }));
    assert_eq!(evaluation.trace.len(), 1);
    assert_eq!(shown(&evaluation.trace[0]), (strings(&["+", "2"]), vec![1]));

    let evaluation = RpnCalculator::new(true).eval_traced("+ 1 1");
    assert_eq!(evaluation.result, Err(EvalError::InvalidSyntax { position: Some(1) }));
    assert!(evaluation.trace.is_empty());

    let evaluation = RpnCalculator::new(true).eval_traced("4 0 / 9");
    assert_eq!(evaluation.result, Err(EvalError::DivisionByZero { position: 3 }));
    assert_eq!(evaluation.trace.len(), 2);
    assert_eq!(shown(&evaluation.trace[1]), (strings(&["/", "9"]), vec![4, 0]));
}

#[test]
fn trace_is_whole_when_only_the_end_is_wrong() {
    let evaluation = RpnCalculator::new(true).eval_traced("1 1 1 +");
    assert_eq!(evaluation.result, Err(EvalError::InvalidSyntax { position: None }));
    assert_eq!(evaluation.trace.len(), 4);
    assert_eq!(shown(&evaluation.trace[3]), (strings(&[]), vec![1, 2]));

    let evaluation = RpnCalculator::new(true).eval_traced("");
    assert_eq!(evaluation.result, Err(EvalError::InvalidSyntax { position: None }));
    assert!(evaluation.trace.is_empty());
}

#[test]
fn tracing_again_records_the_same() {
    for verbose in [false, true] {
        let calc = RpnCalculator::new(verbose);
        for formula in ["2 3 +", "1 2 3 * + 4 -", "", "1 1 1 +", "+ 1 1", "1 0 %", "1 2 x"] {
            assert_eq!(calc.eval_traced(formula), calc.eval_traced(formula));
        }
    }
}

#[test]
fn tracing_does_not_change_the_result() {
    for formula in ["2 3 +", "1 2 3 * + 4 -", "", "1 1 1 +", "+ 1 1", "1 0 %", "1 2 x"] {
        let quiet = RpnCalculator::new(false).eval_traced(formula);
        let loud = RpnCalculator::new(true).eval_traced(formula);
        assert_eq!(quiet.result, loud.result);
        assert_eq!(quiet.result, RpnCalculator::new(true).eval(formula));
    }
}

#[test]
fn evaluating_tokens_is_evaluating_the_formula() {
    let calc = RpnCalculator::new(true);
    for formula in ["5 1 2 + 4 * + 3 -", "1 +", "x", ""] {
        assert_eq!(calc.eval_inner(&tokenize(formula)), calc.eval_traced(formula));
    }
    let tokens = vec![Token::new("6"), Token::new("7"), Token::new("*")];
    assert_eq!(calc.eval_inner(&tokens).result, Ok(42));
}

#[test]
fn step_pushes_an_operand() {
    let mut stack = vec![1];
    assert_eq!(step(&mut stack, &Token::new("-12"), 2), Ok(()));
    assert_eq!(stack, vec![1, -12]);
}

#[test]
fn step_applies_an_operator_to_the_two_topmost_values() {
    let mut stack = vec![9, 10, 3];
    assert_eq!(step(&mut stack, &Token::new("-"), 4), Ok(()));
    assert_eq!(stack, vec![9, 7]);
    assert_eq!(step(&mut stack, &Token::new("/"), 5), Ok(()));
    assert_eq!(stack, vec![1]);
}

#[test]
fn step_leaves_the_stack_alone_on_an_error() {
    let mut stack = vec![4];
    assert_eq!(step(&mut stack, &Token::new("+"), 2), Err(EvalError::InvalidSyntax { position: Some(2) }));
    assert_eq!(stack, vec![4]);
    assert_eq!(step(&mut stack, &Token::new("?"), 7), Err(EvalError::InvalidSyntax { position: Some(7) }));
    assert_eq!(stack, vec![4]);
    stack.push(0);
    assert_eq!(step(&mut stack, &Token::new("?"), 3), Err(EvalError::InvalidToken { position: 3 }));
    assert_eq!(stack, vec![4, 0]);
    assert_eq!(step(&mut stack, &Token::new("/"), 3), Err(EvalError::DivisionByZero { position: 3 }));
    assert_eq!(step(&mut stack, &Token::new("%"), 3), Err(EvalError::DivisionByZero { position: 3 }));
    assert_eq!(stack, vec![4, 0]);
}

#[test]
fn tokens_are_classified() {
    assert_eq!(Token::new("12").classify(), TokenKind::Operand(12));
    assert_eq!(Token::new("-12").classify(), TokenKind::Operand(-12));
    assert_eq!(Token::new("+").classify(), TokenKind::Operator(Operator::Plus));
    assert_eq!(Token::new("-").classify(), TokenKind::Operator(Operator::Minus));
    assert_eq!(Token::new("*").classify(), TokenKind::Operator(Operator::Times));
    assert_eq!(Token::new("/").classify(), TokenKind::Operator(Operator::Divide));
    assert_eq!(Token::new("%").classify(), TokenKind::Operator(Operator::Remainder));
    for text in ["", "x", "+5", "++", "**", "1.0", "2147483648", "÷", "×"] {
        assert_eq!(Token::new(text).classify(), TokenKind::Unknown, "{:?}", text);
    }
    assert_eq!(Token::new("+").operator(), Some(Operator::Plus));
    assert_eq!(Token::new("5").operator(), None);
    assert_eq!(Token::new("+-").operator(), None);
}

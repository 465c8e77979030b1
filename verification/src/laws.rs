//! What holds of the evaluation of every formula.

use vstd::prelude::*;
use crate::eval::{outcome, run, snapshots, EvalError, Evaluation, RpnCalculator};
use crate::lexer::{
    all_space, is_space, lemma_split_concat, lemma_split_spaces, lemma_split_word, separated,
    split,
};
use crate::number::{decimal, lemma_decimal_round_trip, lemma_digits_of};

verus! {

/// A formula that is a single integer of type `i32`, written in base ten
/// with a `-` in front if it is negative, has that integer as its value.
pub proof fn lemma_integer_is_its_value(n: i32)
    ensures
        outcome(decimal(n as int)) == Ok::<i32, EvalError>(n),
{
    let text = decimal(n as int);
    // The text is one word: a `-` and digits are no white space.
    lemma_digits_of(
        if n < 0 {
            (-n) as nat
        } else {
            n as nat
        },
    );
    assert forall|i: int| 0 <= i < text.len() implies !is_space(#[trigger] text[i]) by {}
    lemma_split_word(text);
    // The word is an operand, pushed on the empty stack.
    lemma_decimal_round_trip(n as int);
    assert(run(seq![text].drop_last()) == Ok::<Seq<i32>, EvalError>(Seq::empty()));
}

/// White space added at the start or the end of a formula, or beside white
/// space that it already holds, changes neither its tokens nor its value.
pub proof fn lemma_extra_space_is_ignored(before: Seq<char>, space: Seq<char>, after: Seq<char>)
    requires
        all_space(space),
        separated(before, after),
    ensures
        split(before + space + after) == split(before + after),
        outcome(before + space + after) == outcome(before + after),
{
    lemma_split_concat(before, after);
    if space.len() > 0 {
        assert(before + space + after == before + (space + after));
        lemma_split_concat(before, space + after);
        lemma_split_concat(space, after);
        lemma_split_spaces(space);
    }
}

/// Evaluating a formula again gives the same value or the same error,
/// whichever calculator does it: nothing is kept from one evaluation to the
/// next.
pub proof fn lemma_eval_is_repeatable(
    first: &RpnCalculator,
    second: &RpnCalculator,
    formula: &str,
    once: Result<i32, EvalError>,
    again: Result<i32, EvalError>,
)
    requires
        call_ensures(RpnCalculator::eval, (first, formula), once),
        call_ensures(RpnCalculator::eval, (second, formula), again),
    ensures
        once == again,
{
}

/// Evaluating a formula again with the same calculator gives the same
/// result and records the same trace.
pub proof fn lemma_eval_traced_is_repeatable(
    calculator: &RpnCalculator,
    formula: &str,
    once: Evaluation,
    again: Evaluation,
)
    requires
        call_ensures(RpnCalculator::eval_traced, (calculator, formula), once),
        call_ensures(RpnCalculator::eval_traced, (calculator, formula), again),
    ensures
        once.result == again.result,
        snapshots(once.trace@) == snapshots(again.trace@),
{
}

} // verus!

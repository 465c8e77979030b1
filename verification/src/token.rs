//! Tokens and what they stand for.
//!
//! A token that reads as a decimal literal of type `i32` is an operand. Of
//! the others, the five one-character tokens `+ - * / %` are operators. Note
//! that `-` alone is the operator, while `-` before digits starts a literal.

use vstd::prelude::*;
use crate::arith::Operator;
use crate::number::{parse_i32, parse_i32_spec};

verus! {

broadcast use vstd::string::group_string_axioms;

/// A token of a formula, as the characters it is written with.
#[derive(Debug, PartialEq, Eq)]
pub struct Token {
    text: Vec<char>,
}

impl View for Token {
    type V = Seq<char>;

    closed spec fn view(&self) -> Seq<char> {
        self.text@
    }
}

impl Clone for Token {
    fn clone(&self) -> (token: Token)
        ensures
            token@ == self@,
    {
        Token { text: self.text.clone() }
    }
}

/// The texts of a sequence of tokens.
pub open spec fn texts(tokens: Seq<Token>) -> Seq<Seq<char>> {
    Seq::new(tokens.len(), |i: int| tokens[i]@)
}

/// What a token stands for.
#[derive(Debug, Clone, Copy, PartialEq, Eq, Structural)]
pub enum TokenKind {
    /// An integer to push.
    Operand(i32),
    /// An operator to apply to the two topmost integers.
    Operator(Operator),
    /// Neither.
    Unknown,
}

/// The operator that `text` names, if any.
pub open spec fn operator_of(text: Seq<char>) -> Option<Operator> {
    if text == seq!['+'] {
        Some(Operator::Plus)
    } else if text == seq!['-'] {
        Some(Operator::Minus)
    } else if text == seq!['*'] {
        Some(Operator::Times)
    } else if text == seq!['/'] {
        Some(Operator::Divide)
    } else if text == seq!['%'] {
        Some(Operator::Remainder)
    } else {
        None
    }
}

/// What a token written as `text` stands for. A literal that does not fit
/// in an `i32` is no operand.
pub open spec fn classify_spec(text: Seq<char>) -> TokenKind {
    match parse_i32_spec(text) {
        Some(value) => TokenKind::Operand(value),
        None => match operator_of(text) {
            Some(operator) => TokenKind::Operator(operator),
            None => TokenKind::Unknown,
        },
    }
}

impl Token {
    /// A token written as `text`.
    pub fn new(text: &str) -> (token: Token)
        ensures
            token@ == text@,
    {
        let mut chars: Vec<char> = Vec::new();
        for c in it: text.chars()
            invariant
                it.seq() == text@,
                chars@ == text@.take(it.index()),
        {
            chars.push(c);
        }
        Token { text: chars }
    }

    /// A token written with the characters `text`.
    pub fn from_chars(text: Vec<char>) -> (token: Token)
        ensures
            token@ == text@,
    {
        Token { text }
    }

    /// The characters of the token.
    pub fn chars(&self) -> (chars: &[char])
        ensures
            chars@ == self@,
    {
        self.text.as_slice()
    }

    /// The operator that the token names, if any.
    pub fn operator(&self) -> (operator: Option<Operator>)
        ensures
            operator == operator_of(self@),
    {
        if self.text.len() != 1 {
            return None;
        }
        let c: char = self.text[0];
        assert(self@ == seq![c]);
        if c == '+' {
            Some(Operator::Plus)
        } else if c == '-' {
            Some(Operator::Minus)
        } else if c == '*' {
            Some(Operator::Times)
        } else if c == '/' {
            Some(Operator::Divide)
        } else if c == '%' {
            Some(Operator::Remainder)
        } else {
            None
        }
    }

    /// What the token stands for.
    pub fn classify(&self) -> (kind: TokenKind)
        ensures
            kind == classify_spec(self@),
    {
        match parse_i32(self.text.as_slice()) {
            Some(value) => TokenKind::Operand(value),
            None => match self.operator() {
                Some(operator) => TokenKind::Operator(operator),
                None => TokenKind::Unknown,
            },
        }
    }
}

} // verus!

//! Splitting a formula into tokens at white space.
//!
//! A token is a maximal run of characters that are not white space. Leading
//! and trailing white space is ignored and any run of white space separates
//! two tokens just as a single space does.

use vstd::prelude::*;
use crate::token::{texts, Token};

verus! {

broadcast use vstd::string::group_string_axioms;

/// Whether `c` is white space: one of the characters that Unicode marks as
/// `White_Space`.
pub open spec fn spec_is_space(c: char) -> bool {
    let n = c as u32;
    ||| 0x09 <= n <= 0x0D
    ||| n == 0x20
    ||| n == 0x85
    ||| n == 0xA0
    ||| n == 0x1680
    ||| 0x2000 <= n <= 0x200A
    ||| n == 0x2028
    ||| n == 0x2029
    ||| n == 0x202F
    ||| n == 0x205F
    ||| n == 0x3000
}

/// Whether `c` is white space.
#[verifier::when_used_as_spec(spec_is_space)]
pub fn is_space(c: char) -> (b: bool)
    ensures
        b == spec_is_space(c),
{
    let n: u32 = c as u32;
    (0x09 <= n && n <= 0x0D) || n == 0x20 || n == 0x85 || n == 0xA0 || n == 0x1680 || (0x2000 <= n
        && n <= 0x200A) || n == 0x2028 || n == 0x2029 || n == 0x202F || n == 0x205F || n == 0x3000
}

/// Whether every character of `s` is white space.
pub open spec fn all_space(s: Seq<char>) -> bool {
    forall|i: int| 0 <= i < s.len() ==> is_space(#[trigger] s[i])
}

/// Whether `s` can be a token: it is not empty and holds no white space.
pub open spec fn is_word(s: Seq<char>) -> bool {
    &&& s.len() > 0
    &&& forall|i: int| 0 <= i < s.len() ==> !is_space(#[trigger] s[i])
}

/// The number of characters at the start of `s` before its first white
/// space, or its length if it holds none.
pub open spec fn word_len(s: Seq<char>) -> nat
    decreases s.len(),
{
    if s.len() == 0 || is_space(s[0]) {
        0
    } else {
        1 + word_len(s.skip(1))
    }
}

/// The tokens of `s`, left to right.
pub open spec fn split(s: Seq<char>) -> Seq<Seq<char>>
    decreases s.len(),
    via split_decreases
{
    if s.len() == 0 {
        Seq::empty()
    } else if is_space(s[0]) {
        split(s.skip(1))
    } else {
        seq![s.take(word_len(s) as int)] + split(s.skip(word_len(s) as int))
    }
}

#[via_fn]
proof fn split_decreases(s: Seq<char>) {
    lemma_word_len(s);
}

/// `word_len(s)` marks the end of the first run of characters of `s` that
/// are not white space.
pub proof fn lemma_word_len(s: Seq<char>)
    ensures
        word_len(s) <= s.len(),
        forall|i: int| 0 <= i < word_len(s) ==> !is_space(#[trigger] s[i]),
        word_len(s) < s.len() ==> is_space(s[word_len(s) as int]),
        s.len() > 0 && !is_space(s[0]) ==> word_len(s) > 0,
    decreases s.len(),
{
    if s.len() > 0 && !is_space(s[0]) {
        let t = s.skip(1);
        lemma_word_len(t);
        assert forall|i: int| 0 <= i < word_len(s) implies !is_space(#[trigger] s[i]) by {
            if i > 0 {
                assert(s[i] == t[i - 1]);
            }
        }
    }
}

/// A run of `m` characters without white space that ends `s` or is followed
/// by white space is the whole first run.
pub proof fn lemma_word_len_is(s: Seq<char>, m: int)
    requires
        0 <= m <= s.len(),
        forall|i: int| 0 <= i < m ==> !is_space(#[trigger] s[i]),
        m < s.len() ==> is_space(s[m]),
    ensures
        word_len(s) == m,
    decreases m,
{
    if m > 0 {
        let t = s.skip(1);
        assert forall|i: int| 0 <= i < m - 1 implies !is_space(#[trigger] t[i]) by {
            assert(t[i] == s[i + 1]);
        }
        lemma_word_len_is(t, m - 1);
    }
}

/// A word is its own single token.
pub proof fn lemma_split_word(w: Seq<char>)
    requires
        is_word(w),
    ensures
        split(w) == seq![w],
{
    lemma_word_len_is(w, w.len() as int);
    assert(w.take(w.len() as int) == w);
    assert(split(w.skip(w.len() as int)) == Seq::<Seq<char>>::empty());
}

/// White space alone holds no token.
pub proof fn lemma_split_spaces(ws: Seq<char>)
    requires
        all_space(ws),
    ensures
        split(ws) == Seq::<Seq<char>>::empty(),
    decreases ws.len(),
{
    if ws.len() > 0 {
        let t = ws.skip(1);
        assert forall|i: int| 0 <= i < t.len() implies is_space(#[trigger] t[i]) by {
            assert(t[i] == ws[i + 1]);
        }
        lemma_split_spaces(t);
    }
}

/// Every token is a word.
pub proof fn lemma_split_words(s: Seq<char>)
    ensures
        forall|i: int| 0 <= i < split(s).len() ==> is_word(#[trigger] split(s)[i]),
    decreases s.len(),
{
    if s.len() == 0 {
    } else if is_space(s[0]) {
        lemma_split_words(s.skip(1));
        assert(split(s) == split(s.skip(1)));
    } else {
        let n = word_len(s) as int;
        let rest = split(s.skip(n));
        lemma_word_len(s);
        lemma_split_words(s.skip(n));
        assert(split(s) == seq![s.take(n)] + rest);
        assert forall|i: int| 0 <= i < split(s).len() implies is_word(#[trigger] split(s)[i]) by {
            if i > 0 {
                assert(split(s)[i] == rest[i - 1]);
            }
        }
    }
}

/// Whether two texts can be joined without merging a token that ends the
/// first with one that starts the second.
pub open spec fn separated(a: Seq<char>, b: Seq<char>) -> bool {
    a.len() == 0 || b.len() == 0 || is_space(a.last()) || is_space(b[0])
}

/// Where two texts meet at white space, or one of them is empty, the tokens
/// of the joined text are those of the first followed by those of the second.
pub proof fn lemma_split_concat(a: Seq<char>, b: Seq<char>)
    requires
        separated(a, b),
    ensures
        split(a + b) == split(a) + split(b),
    decreases a.len(),
{
    let s = a + b;
    if a.len() == 0 {
        assert(s == b);
    } else if is_space(a[0]) {
        assert(s.skip(1) == a.skip(1) + b);
        lemma_split_concat(a.skip(1), b);
    } else {
        // The first word of `a` is also the first word of `s`: it ends inside
        // `a`, or `a` ends with it and `b` is empty or starts with white space.
        let n = word_len(a) as int;
        lemma_word_len(a);
        assert forall|i: int| 0 <= i < n implies !is_space(#[trigger] s[i]) by {
            assert(s[i] == a[i]);
        }
        lemma_word_len_is(s, n);
        assert(s.take(n) == a.take(n));
        assert(s.skip(n) == a.skip(n) + b);
        lemma_split_concat(a.skip(n), b);
    }
}

/// Splits `formula` into its tokens, left to right.
pub fn tokenize(formula: &str) -> (tokens: Vec<Token>)
    ensures
        texts(tokens@) == split(formula@),
        forall|i: int| 0 <= i < tokens.len() ==> is_word(#[trigger] tokens[i]@),
{
    let ghost s = formula@;
    let mut tokens: Vec<Token> = Vec::new();
    // The characters of the token that is being read.
    let mut word: Vec<char> = Vec::new();
    assert(Seq::<char>::empty() + s.skip(0) == s);
    for c in it: formula.chars()
        invariant
            it.seq() == s,
            s == formula@,
            forall|i: int| 0 <= i < word.len() ==> !is_space(#[trigger] word[i]),
            split(s) == texts(tokens@) + split(word@ + s.skip(it.index())),
    {
        let ghost rest = s.skip(it.index());
        let ghost after = s.skip(it.index() + 1);
        assert(rest.skip(1) == after);
        if !is_space(c) {
            let ghost prefix = word@;
            word.push(c);
            assert(word@ + after == prefix + rest);
        } else if word.len() > 0 {
            proof {
                let joined = word@ + rest;
                let n = word@.len() as int;
                assert forall|i: int| 0 <= i < n implies !is_space(#[trigger] joined[i]) by {
                    assert(joined[i] == word@[i]);
                }
                lemma_word_len_is(joined, n);
                assert(joined.take(n) == word@);
                assert(joined.skip(n) == rest);
                assert(split(rest) == split(after));
            }
            tokens.push(Token::from_chars(word));
            word = Vec::new();
        }
    }
    if word.len() > 0 {
        proof {
            lemma_split_word(word@);
        }
        tokens.push(Token::from_chars(word));
    }
    proof {
        lemma_split_words(s);
        assert forall|i: int| 0 <= i < tokens.len() implies is_word(#[trigger] tokens[i]@) by {
            assert(split(s)[i] == tokens[i]@);
        }
    }
    tokens
}

} // verus!

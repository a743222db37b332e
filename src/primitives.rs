//! Parsers built directly from the input: `wrap`, `fail`, `prefix`,
//! `parse_while` and `any_char`.
use vstd::prelude::*;
use vstd::string::*;
use core::marker::PhantomData;
use crate::chars::CharPredicate;
use crate::state::{
    advance, input_sub, lemma_advance_is_advanced, lemma_advanced_refl, ErrorModel, InputModel,
    Parser, ParserError, ParserState,
};

verus! {

/// Succeeds with a fixed value and consumes nothing.
#[derive(Clone)]
pub struct Wrap<T> {
    pub value: T,
}

/// Fails with a fixed error and consumes nothing.
pub struct Fail<T> {
    pub error: ParserError,
    pub marker: PhantomData<T>,
}

/// Matches a fixed text at the start of the input.
#[derive(Clone, Copy)]
pub struct Prefix {
    pub expected: &'static str,
}

/// Consumes the longest prefix whose characters all satisfy a predicate.
#[derive(Clone, Copy)]
pub struct ParseWhile<P> {
    pub pred: P,
}

/// Consumes one character.
#[derive(Clone, Copy)]
pub struct AnyChar;

/// A parser that always succeeds with `x`, consuming nothing.
pub fn wrap<T: Clone + DeepView>(x: T) -> (r: Wrap<T>)
    ensures
        r.value == x,
{
    Wrap { value: x }
}

/// A parser that always fails with `e`, consuming nothing.
pub fn fail<T: DeepView>(e: ParserError) -> (r: Fail<T>)
    ensures
        r.error == e,
{
    Fail { error: e, marker: PhantomData }
}

/// A parser that matches `prefix_str` exactly.
pub fn prefix(prefix_str: &'static str) -> (r: Prefix)
    ensures
        r.expected == prefix_str,
{
    Prefix { expected: prefix_str }
}

/// A parser that consumes characters while `p` holds of them.
pub fn parse_while<P: CharPredicate>(p: P) -> (r: ParseWhile<P>)
    ensures
        r.pred == p,
{
    ParseWhile { pred: p }
}

/// A parser that consumes any one character.
pub fn any_char() -> (r: AnyChar)
    ensures
        r == AnyChar,
{
    AnyChar
}

impl<T: Clone + DeepView> Parser for Wrap<T> {
    type Output = T;

    open spec fn spec_parse(&self, s: InputModel) -> (InputModel, Result<T::V, ErrorModel>) {
        (s, Ok(self.value.deep_view()))
    }

    /// Cloning the value keeps what it stands for.
    open spec fn wf(&self) -> bool {
        forall|c: T| call_ensures(T::clone, (&self.value,), c) ==> c.deep_view() == self.value.deep_view()
    }

    fn parse(&self, s: ParserState) -> (r: (ParserState, Result<T, ParserError>)) {
        let x = self.value.clone();
        proof {
            lemma_advanced_refl(s@);
        }
        (s, Ok(x))
    }
}

/// A copy of `e`.
fn copy_error(e: &ParserError) -> (r: ParserError)
    ensures
        r@ == e@,
{
    ParserError { desc: e.desc.clone(), pos: e.pos }
}

impl<T: DeepView> Parser for Fail<T> {
    type Output = T;

    open spec fn spec_parse(&self, s: InputModel) -> (InputModel, Result<T::V, ErrorModel>) {
        (s, Err(self.error@))
    }

    open spec fn wf(&self) -> bool {
        true
    }

    fn parse(&self, s: ParserState) -> (r: (ParserState, Result<T, ParserError>)) {
        proof {
            lemma_advanced_refl(s@);
        }
        (s, Err(copy_error(&self.error)))
    }
}

/// The description of a failed match of `expected`.
pub open spec fn expected_desc(expected: Seq<char>) -> Seq<char> {
    "expected "@ + expected
}

impl Parser for Prefix {
    type Output = &'static str;

    open spec fn spec_parse(&self, s: InputModel) -> (InputModel, Result<Seq<char>, ErrorModel>) {
        let m = self.expected@.len();
        if m <= s.text.len() && s.text.take(m as int) == self.expected@ {
            (advance(s, m), Ok(self.expected@))
        } else {
            (s, Err(ErrorModel { desc: expected_desc(self.expected@), pos: 0 }))
        }
    }

    open spec fn wf(&self) -> bool {
        true
    }

    fn parse(&self, s: ParserState) -> (r: (ParserState, Result<&'static str, ParserError>)) {
        let m = self.expected.unicode_len();
        let n = s.text.as_str().unicode_len();
        let mut matches = m <= n;
        if matches {
            let mut i: usize = 0;
            while i < m
                invariant
                    m == self.expected@.len(),
                    n == s.text@.len(),
                    m <= n,
                    i <= m,
                    matches == (forall|j: int| 0 <= j < i ==> s.text@[j] == self.expected@[j]),
                decreases m - i,
            {
                let same = s.text.as_str().get_char(i) == self.expected.get_char(i);
                matches = matches && same;
                i = i + 1;
            }
            assert(matches == (s.text@.take(m as int) =~= self.expected@));
        }
        if matches {
            let rest = input_sub(m, n - m, &s);
            assert(rest.text@ == s.text@.skip(m as int));
            proof {
                lemma_advance_is_advanced(s@, m as nat);
            }
            (rest, Ok(self.expected))
        } else {
            let mut desc = String::from_str("expected ");
            desc.append(self.expected);
            proof {
                lemma_advanced_refl(s@);
            }
            (s, Err(ParserError { desc, pos: 0 }))
        }
    }
}

/// The length of the longest prefix of `t` whose characters all satisfy `p`.
pub open spec fn span_len<P: CharPredicate>(p: P, t: Seq<char>) -> nat
    decreases t.len(),
{
    if t.len() > 0 && p.spec_test(t[0]) {
        1 + span_len(p, t.skip(1))
    } else {
        0
    }
}

/// `span_len` is the one length `k` such that the first `k` characters
/// satisfy `p` and the next one, if any, does not.
pub proof fn lemma_span_len<P: CharPredicate>(p: P, t: Seq<char>, k: nat)
    requires
        k <= t.len(),
        forall|j: int| 0 <= j < k ==> p.spec_test(#[trigger] t[j]),
        k == t.len() || !p.spec_test(t[k as int]),
    ensures
        span_len(p, t) == k,
    decreases k,
{
    if k > 0 {
        assert(p.spec_test(t[0]));
        assert forall|j: int| 0 <= j < k - 1 implies p.spec_test(#[trigger] t.skip(1)[j]) by {
            assert(t.skip(1)[j] == t[j + 1]);
        }
        if k < t.len() {
            assert(t.skip(1)[k - 1] == t[k as int]);
        }
        lemma_span_len(p, t.skip(1), (k - 1) as nat);
    }
}

impl<P: CharPredicate> Parser for ParseWhile<P> {
    type Output = String;

    open spec fn spec_parse(&self, s: InputModel) -> (InputModel, Result<Seq<char>, ErrorModel>) {
        let k = span_len(self.pred, s.text);
        (advance(s, k), Ok(s.text.take(k as int)))
    }

    open spec fn wf(&self) -> bool {
        true
    }

    fn parse(&self, s: ParserState) -> (r: (ParserState, Result<String, ParserError>)) {
        let n = s.text.as_str().unicode_len();
        let mut i: usize = 0;
        while i < n && self.pred.test(s.text.as_str().get_char(i))
            invariant
                n == s.text@.len(),
                i <= n,
                forall|j: int| 0 <= j < i ==> self.pred.spec_test(#[trigger] s.text@[j]),
            decreases n - i,
        {
            i = i + 1;
        }
        proof {
            lemma_span_len(self.pred, s.text@, i as nat);
        }
        let matched = String::from_str(s.text.as_str().substring_char(0, i));
        let rest = input_sub(i, n - i, &s);
        assert(rest.text@ == s.text@.skip(i as int));
        proof {
            lemma_advance_is_advanced(s@, i as nat);
        }
        (rest, Ok(matched))
    }
}

impl Parser for AnyChar {
    type Output = char;

    open spec fn spec_parse(&self, s: InputModel) -> (InputModel, Result<char, ErrorModel>) {
        if s.text.len() > 0 {
            (advance(s, 1), Ok(s.text[0]))
        } else {
            (s, Err(ErrorModel { desc: "expected any char, got none (input.len() = 0)"@, pos: 0 }))
        }
    }

    open spec fn wf(&self) -> bool {
        true
    }

    fn parse(&self, s: ParserState) -> (r: (ParserState, Result<char, ParserError>)) {
        let n = s.text.as_str().unicode_len();
        if n >= 1 {
            let c = s.text.as_str().get_char(0);
            let rest = input_sub(1, n - 1, &s);
            assert(rest.text@ == s.text@.skip(1));
            proof {
                lemma_advance_is_advanced(s@, 1);
            }
            (rest, Ok(c))
        } else {
            let desc = String::from_str("expected any char, got none (input.len() = 0)");
            proof {
                lemma_advanced_refl(s@);
            }
            (s, Err(ParserError { desc, pos: 0 }))
        }
    }
}

} // verus!

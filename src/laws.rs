//! Properties that hold of the parsers for every input.
use vstd::prelude::*;
use crate::chars::CharPredicate;
use crate::combinators::{spec_many, spec_many_exact, KeepRight, Many, ManyExact, Optional, Or};
use crate::primitives::{span_len, AnyChar, ParseWhile, Prefix};
use crate::state::{advance, spec_run, ErrorModel, InputModel, Parser};

verus! {

/// The error of `any_char` on empty input.
pub open spec fn no_char_error() -> ErrorModel {
    ErrorModel { desc: "expected any char, got none (input.len() = 0)"@, pos: 0 }
}

proof fn lemma_span_len_bounds<P: CharPredicate>(p: P, t: Seq<char>)
    ensures
        span_len(p, t) <= t.len(),
        forall|j: int| 0 <= j < span_len(p, t) ==> p.spec_test(#[trigger] t[j]),
        span_len(p, t) == t.len() || !p.spec_test(t[span_len(p, t) as int]),
    decreases t.len(),
{
    if t.len() > 0 && p.spec_test(t[0]) {
        lemma_span_len_bounds(p, t.skip(1));
        assert forall|j: int| 0 <= j < span_len(p, t) implies p.spec_test(#[trigger] t[j]) by {
            if j > 0 {
                assert(t[j] == t.skip(1)[j - 1]);
            }
        }
        if span_len(p, t) < t.len() {
            assert(t[span_len(p, t) as int] == t.skip(1)[span_len(p, t.skip(1)) as int]);
        }
    }
}

/// `parse_while(p)` always succeeds, and consumes and returns the longest
/// prefix of the input whose characters all satisfy `p`: every matched
/// character satisfies `p`, and the next one, if there is one, does not.
pub proof fn law_parse_while_longest_prefix<P: CharPredicate>(p: P, s: InputModel)
    ensures
        ({
            let (s1, r) = ParseWhile { pred: p }.spec_parse(s);
            &&& r is Ok
            &&& r->Ok_0.len() <= s.text.len()
            &&& r->Ok_0 == s.text.take(r->Ok_0.len() as int)
            &&& s1 == advance(s, r->Ok_0.len())
            &&& forall|j: int| 0 <= j < r->Ok_0.len() ==> p.spec_test(#[trigger] s.text[j])
            &&& r->Ok_0.len() == s.text.len() || !p.spec_test(s.text[r->Ok_0.len() as int])
        }),
{
    lemma_span_len_bounds(p, s.text);
}

proof fn lemma_many_exact_any_char(n: nat, s: InputModel, acc: Seq<char>)
    ensures
        s.text.len() >= n ==> spec_many_exact(AnyChar, n, s, acc)
            == (advance(s, n), Ok::<Seq<char>, ErrorModel>(acc + s.text.take(n as int))),
        s.text.len() < n ==> spec_many_exact(AnyChar, n, s, acc)
            == (advance(s, s.text.len()), Err::<Seq<char>, ErrorModel>(no_char_error())),
    decreases n,
{
    if n == 0 {
        assert(acc + s.text.take(0) =~= acc);
        assert(s.text.skip(0) =~= s.text);
    } else if s.text.len() == 0 {
        assert(s.text.skip(0) =~= s.text);
    } else {
        let s1 = advance(s, 1);
        lemma_many_exact_any_char((n - 1) as nat, s1, acc.push(s.text[0]));
        if s.text.len() >= n {
            assert(acc.push(s.text[0]) + s1.text.take(n - 1) =~= acc + s.text.take(n as int));
            assert(s1.text.skip(n - 1) =~= s.text.skip(n as int));
        } else {
            assert(s1.text.skip(s1.text.len() as int) =~= s.text.skip(s.text.len() as int));
        }
    }
}

/// `many_exact(n, any_char())` run on an input of at least `n` characters
/// returns its first `n` characters in order; on a shorter input it fails
/// at the offset of the end of the input.
pub proof fn law_many_exact_any_char(n: usize, input: Seq<char>)
    ensures
        input.len() >= n ==> spec_run(ManyExact { count: n, inner: AnyChar }, input)
            == Ok::<Seq<char>, ErrorModel>(input.take(n as int)),
        input.len() < n ==> spec_run(ManyExact { count: n, inner: AnyChar }, input)
            == Err::<Seq<char>, ErrorModel>(ErrorModel { desc: no_char_error().desc, pos: input.len() }),
{
    let s = InputModel { text: input, pos: 0 };
    lemma_many_exact_any_char(n as nat, s, Seq::empty());
    assert(Seq::<char>::empty() + input.take(n as int) =~= input.take(n as int));
}

proof fn lemma_many_any_char(s: InputModel, acc: Seq<char>)
    ensures
        spec_many(AnyChar, s, acc) == (advance(s, s.text.len()), acc + s.text),
    decreases s.text.len(),
{
    if s.text.len() == 0 {
        assert(acc + s.text =~= acc);
        assert(s.text.skip(0) =~= s.text);
    } else {
        let s1 = advance(s, 1);
        lemma_many_any_char(s1, acc.push(s.text[0]));
        assert(acc.push(s.text[0]) + s1.text =~= acc + s.text);
        assert(s1.text.skip(s1.text.len() as int) =~= s.text.skip(s.text.len() as int));
    }
}

/// `many(any_char())` always succeeds, returns every character of the input
/// in order, and consumes all of it.
pub proof fn law_many_any_char(s: InputModel)
    ensures
        (Many { inner: AnyChar }).spec_parse(s)
            == (advance(s, s.text.len()), Ok::<Seq<char>, ErrorModel>(s.text)),
        advance(s, s.text.len()).text.len() == 0,
        spec_run(Many { inner: AnyChar }, s.text) == Ok::<Seq<char>, ErrorModel>(s.text),
{
    lemma_many_any_char(s, Seq::empty());
    assert(Seq::<char>::empty() + s.text =~= s.text);
    assert(s.text.skip(s.text.len() as int) =~= Seq::<char>::empty());
    lemma_many_any_char(InputModel { text: s.text, pos: 0 }, Seq::empty());
}

/// `optional(prefix(lit))` on an input that does not start with `lit`
/// succeeds with no value and consumes nothing, so that a parser after it
/// sees the input untouched.
pub proof fn law_optional_no_match<Q: Parser>(lit: &'static str, q: Q, s: InputModel)
    requires
        !(lit@.len() <= s.text.len() && s.text.take(lit@.len() as int) == lit@),
    ensures
        (Optional { inner: Prefix { expected: lit } }).spec_parse(s)
            == (s, Ok::<Option<Seq<char>>, ErrorModel>(None)),
        (KeepRight { first: Optional { inner: Prefix { expected: lit } }, second: q }).spec_parse(s)
            == q.spec_parse(s),
{
}

/// Where the first alternative fails, the second runs on the input that the
/// first saw, whatever the first consumed before it failed.
pub proof fn law_alternative_backtracks<P: Parser, Q: Parser<Output = P::Output>>(p: P, q: Q, s: InputModel)
    requires
        (p.spec_parse(s).1 is Err),
    ensures
        (Or { first: p, second: q }).spec_parse(s) == q.spec_parse(s),
{
}

} // verus!

//! Parsers built from other parsers: sequencing, choice, optionality and
//! repetition.
use vstd::prelude::*;
use crate::state::{
    advanced_from, lemma_advanced_refl, lemma_advanced_trans, ErrorModel, InputModel, Parser,
    ParserError, ParserState,
};

verus! {

/// Runs `first`, then `second`; keeps the value of `first`.
#[derive(Clone, Copy)]
pub struct KeepLeft<P, Q> {
    pub first: P,
    pub second: Q,
}

/// Runs `first`, then `second`; keeps the value of `second`.
#[derive(Clone, Copy)]
pub struct KeepRight<P, Q> {
    pub first: P,
    pub second: Q,
}

/// Runs `first`, then `second`; keeps both values as a pair.
#[derive(Clone, Copy)]
pub struct Pair<P, Q> {
    pub first: P,
    pub second: Q,
}

/// Runs `first`; where it fails, runs `second` on the input that `first` saw.
#[derive(Clone, Copy)]
pub struct Or<P, Q> {
    pub first: P,
    pub second: Q,
}

/// Runs `inner`; turns its failure into a success with no value.
#[derive(Clone, Copy)]
pub struct Optional<P> {
    pub inner: P,
}

/// Runs `inner` exactly `count` times.
#[derive(Clone, Copy)]
pub struct ManyExact<P> {
    pub count: usize,
    pub inner: P,
}

/// Runs `inner` for as long as it succeeds and consumes input.
#[derive(Clone, Copy)]
pub struct Many<P> {
    pub inner: P,
}

/// Sequences `p1` and `p2`, keeping the value of `p1`.
pub fn sequence_keep_left<P: Parser, Q: Parser>(p1: P, p2: Q) -> (r: KeepLeft<P, Q>)
    ensures
        r.first == p1,
        r.second == p2,
{
    KeepLeft { first: p1, second: p2 }
}

/// Sequences `p1` and `p2`, keeping the value of `p2`.
pub fn sequence_keep_right<P: Parser, Q: Parser>(p1: P, p2: Q) -> (r: KeepRight<P, Q>)
    ensures
        r.first == p1,
        r.second == p2,
{
    KeepRight { first: p1, second: p2 }
}

/// Sequences `p1` and `p2`, keeping both values.
pub fn sequence_pair<P: Parser, Q: Parser>(p1: P, p2: Q) -> (r: Pair<P, Q>)
    ensures
        r.first == p1,
        r.second == p2,
{
    Pair { first: p1, second: p2 }
}

/// Tries `p1`, and `p2` on the same input where `p1` fails.
pub fn alternative<P: Parser, Q: Parser<Output = P::Output>>(p1: P, p2: Q) -> (r: Or<P, Q>)
    ensures
        r.first == p1,
        r.second == p2,
{
    Or { first: p1, second: p2 }
}

/// Makes `p` optional.
pub fn optional<P: Parser>(p: P) -> (r: Optional<P>)
    ensures
        r.inner == p,
{
    Optional { inner: p }
}

/// Repeats `p` exactly `n` times.
pub fn many_exact<P: Parser>(n: usize, p: P) -> (r: ManyExact<P>)
    ensures
        r.count == n,
        r.inner == p,
{
    ManyExact { count: n, inner: p }
}

/// Repeats `p` for as long as it succeeds. A success of `p` that consumes
/// nothing ends the repetition and is not collected, so that the repetition
/// always ends.
pub fn many<P: Parser>(p: P) -> (r: Many<P>)
    ensures
        r.inner == p,
{
    Many { inner: p }
}

impl<P: Parser, Q: Parser> Parser for KeepLeft<P, Q> {
    type Output = P::Output;

    open spec fn spec_parse(&self, s: InputModel) -> (InputModel, Result<<P::Output as DeepView>::V, ErrorModel>) {
        let (s1, r1) = self.first.spec_parse(s);
        match r1 {
            Err(e) => (s1, Err(e)),
            Ok(a) => {
                let (s2, r2) = self.second.spec_parse(s1);
                match r2 {
                    Ok(_) => (s2, Ok(a)),
                    Err(e) => (s2, Err(e)),
                }
            },
        }
    }

    open spec fn wf(&self) -> bool {
        self.first.wf() && self.second.wf()
    }

    fn parse(&self, s: ParserState) -> (r: (ParserState, Result<P::Output, ParserError>)) {
        let ghost s0 = s@;
        let (s1, r1) = self.first.parse(s);
        match r1 {
            Err(e) => (s1, Err(e)),
            Ok(a) => {
                let ghost m = s1@;
                let (s2, r2) = self.second.parse(s1);
                proof {
                    lemma_advanced_trans(s0, m, s2@);
                }
                match r2 {
                    Ok(_) => (s2, Ok(a)),
                    Err(e) => (s2, Err(e)),
                }
            },
        }
    }
}

impl<P: Parser, Q: Parser> Parser for KeepRight<P, Q> {
    type Output = Q::Output;

    open spec fn spec_parse(&self, s: InputModel) -> (InputModel, Result<<Q::Output as DeepView>::V, ErrorModel>) {
        let (s1, r1) = self.first.spec_parse(s);
        match r1 {
            Err(e) => (s1, Err(e)),
            Ok(_) => self.second.spec_parse(s1),
        }
    }

    open spec fn wf(&self) -> bool {
        self.first.wf() && self.second.wf()
    }

    fn parse(&self, s: ParserState) -> (r: (ParserState, Result<Q::Output, ParserError>)) {
        let ghost s0 = s@;
        let (s1, r1) = self.first.parse(s);
        match r1 {
            Err(e) => (s1, Err(e)),
            Ok(_) => {
                let ghost m = s1@;
                let (s2, r2) = self.second.parse(s1);
                proof {
                    lemma_advanced_trans(s0, m, s2@);
                }
                (s2, r2)
            },
        }
    }
}

impl<P: Parser, Q: Parser> Parser for Pair<P, Q> {
    type Output = (P::Output, Q::Output);

    open spec fn spec_parse(&self, s: InputModel) -> (InputModel, Result<(<P::Output as DeepView>::V, <Q::Output as DeepView>::V), ErrorModel>) {
        let (s1, r1) = self.first.spec_parse(s);
        match r1 {
            Err(e) => (s1, Err(e)),
            Ok(a) => {
                let (s2, r2) = self.second.spec_parse(s1);
                match r2 {
                    Ok(b) => (s2, Ok((a, b))),
                    Err(e) => (s2, Err(e)),
                }
            },
        }
    }

    open spec fn wf(&self) -> bool {
        self.first.wf() && self.second.wf()
    }

    fn parse(&self, s: ParserState) -> (r: (ParserState, Result<(P::Output, Q::Output), ParserError>)) {
        let ghost s0 = s@;
        let (s1, r1) = self.first.parse(s);
        match r1 {
            Err(e) => (s1, Err(e)),
            Ok(a) => {
                let ghost m = s1@;
                let (s2, r2) = self.second.parse(s1);
                proof {
                    lemma_advanced_trans(s0, m, s2@);
                }
                match r2 {
                    Ok(b) => (s2, Ok((a, b))),
                    Err(e) => (s2, Err(e)),
                }
            },
        }
    }
}

impl<P: Parser, Q: Parser<Output = P::Output>> Parser for Or<P, Q> {
    type Output = P::Output;

    open spec fn spec_parse(&self, s: InputModel) -> (InputModel, Result<<P::Output as DeepView>::V, ErrorModel>) {
        let (s1, r1) = self.first.spec_parse(s);
        match r1 {
            Ok(a) => (s1, Ok(a)),
            Err(_) => self.second.spec_parse(s),
        }
    }

    open spec fn wf(&self) -> bool {
        self.first.wf() && self.second.wf()
    }

    fn parse(&self, s: ParserState) -> (r: (ParserState, Result<P::Output, ParserError>)) {
        let saved = ParserState { text: s.text.clone(), pos: s.pos };
        let (s1, r1) = self.first.parse(saved);
        match r1 {
            Ok(a) => (s1, Ok(a)),
            Err(_) => self.second.parse(s),
        }
    }
}

impl<P: Parser> Parser for Optional<P> {
    type Output = Option<P::Output>;

    open spec fn spec_parse(&self, s: InputModel) -> (InputModel, Result<Option<<P::Output as DeepView>::V>, ErrorModel>) {
        let (s1, r1) = self.inner.spec_parse(s);
        match r1 {
            Ok(a) => (s1, Ok(Some(a))),
            Err(_) => (s1, Ok(None)),
        }
    }

    open spec fn wf(&self) -> bool {
        self.inner.wf()
    }

    fn parse(&self, s: ParserState) -> (r: (ParserState, Result<Option<P::Output>, ParserError>)) {
        let (s1, r1) = self.inner.parse(s);
        match r1 {
            Ok(a) => (s1, Ok(Some(a))),
            Err(_) => (s1, Ok(None)),
        }
    }
}

/// `p` run `n` more times from `s`, after the values `acc` were collected.
pub open spec fn spec_many_exact<P: Parser>(p: P, n: nat, s: InputModel, acc: Seq<<P::Output as DeepView>::V>) -> (InputModel, Result<Seq<<P::Output as DeepView>::V>, ErrorModel>)
    decreases n,
{
    if n == 0 {
        (s, Ok(acc))
    } else {
        let (s1, r1) = p.spec_parse(s);
        match r1 {
            Err(e) => (s1, Err(e)),
            Ok(a) => spec_many_exact(p, (n - 1) as nat, s1, acc.push(a)),
        }
    }
}

/// `p` run from `s` for as long as it succeeds and consumes input, after the
/// values `acc` were collected.
pub open spec fn spec_many<P: Parser>(p: P, s: InputModel, acc: Seq<<P::Output as DeepView>::V>) -> (InputModel, Seq<<P::Output as DeepView>::V>)
    decreases s.text.len(),
{
    let (s1, r1) = p.spec_parse(s);
    match r1 {
        Ok(a) => if s1.text.len() < s.text.len() {
            spec_many(p, s1, acc.push(a))
        } else {
            (s, acc)
        },
        Err(_) => (s, acc),
    }
}

/// Pushing onto a vector pushes the view of the new item onto its view.
proof fn lemma_push_deep_view<T: DeepView>(old_v: Seq<T>, x: T)
    ensures
        Seq::new(old_v.push(x).len(), |i: int| old_v.push(x)[i].deep_view())
            == Seq::new(old_v.len(), |i: int| old_v[i].deep_view()).push(x.deep_view()),
{
    assert(Seq::new(old_v.push(x).len(), |i: int| old_v.push(x)[i].deep_view())
        =~= Seq::new(old_v.len(), |i: int| old_v[i].deep_view()).push(x.deep_view()));
}

impl<P: Parser> Parser for ManyExact<P> {
    type Output = Vec<P::Output>;

    open spec fn spec_parse(&self, s: InputModel) -> (InputModel, Result<Seq<<P::Output as DeepView>::V>, ErrorModel>) {
        spec_many_exact(self.inner, self.count as nat, s, Seq::empty())
    }

    open spec fn wf(&self) -> bool {
        self.inner.wf()
    }

    fn parse(&self, s: ParserState) -> (r: (ParserState, Result<Vec<P::Output>, ParserError>)) {
        let mut xs: Vec<P::Output> = Vec::new();
        let mut cur = s;
        let mut i: usize = 0;
        let ghost s0 = s@;
        assert(xs.deep_view() =~= Seq::empty());
        proof {
            lemma_advanced_refl(s0);
        }
        while i < self.count
            invariant
                self.inner.wf(),
                cur.wf(),
                s0 == s@,
                advanced_from(cur@, s0),
                i <= self.count,
                spec_many_exact(self.inner, self.count as nat, s@, Seq::empty())
                    == spec_many_exact(self.inner, (self.count - i) as nat, cur@, xs.deep_view()),
            decreases self.count - i,
        {
            let ghost c = cur@;
            let (next, r) = self.inner.parse(cur);
            proof {
                lemma_advanced_trans(s0, c, next@);
            }
            match r {
                Ok(x) => {
                    proof {
                        lemma_push_deep_view(xs@, x);
                    }
                    xs.push(x);
                    cur = next;
                },
                Err(e) => {
                    return (next, Err(e));
                },
            }
            i = i + 1;
        }
        (cur, Ok(xs))
    }
}

impl<P: Parser> Parser for Many<P> {
    type Output = Vec<P::Output>;

    open spec fn spec_parse(&self, s: InputModel) -> (InputModel, Result<Seq<<P::Output as DeepView>::V>, ErrorModel>) {
        let (s1, vs) = spec_many(self.inner, s, Seq::empty());
        (s1, Ok(vs))
    }

    open spec fn wf(&self) -> bool {
        self.inner.wf()
    }

    fn parse(&self, s: ParserState) -> (r: (ParserState, Result<Vec<P::Output>, ParserError>)) {
        let mut xs: Vec<P::Output> = Vec::new();
        let ghost s0 = s@;
        let mut cur = s;
        assert(xs.deep_view() =~= Seq::empty());
        proof {
            lemma_advanced_refl(s0);
        }
        loop
            invariant
                self.inner.wf(),
                cur.wf(),
                s0 == s@,
                advanced_from(cur@, s0),
                spec_many(self.inner, s@, Seq::empty()) == spec_many(self.inner, cur@, xs.deep_view()),
            ensures
                cur.wf(),
                advanced_from(cur@, s0),
                spec_many(self.inner, s@, Seq::empty()) == (cur@, xs.deep_view()),
            decreases cur.text@.len(),
        {
            let saved = ParserState { text: cur.text.clone(), pos: cur.pos };
            let before = cur.text.as_str().unicode_len();
            let (next, r) = self.inner.parse(saved);
            match r {
                Ok(x) => {
                    let after = next.text.as_str().unicode_len();
                    if after < before {
                        proof {
                            lemma_push_deep_view(xs@, x);
                            lemma_advanced_trans(s0, cur@, next@);
                        }
                        xs.push(x);
                        cur = next;
                    } else {
                        break;
                    }
                },
                Err(_) => {
                    break;
                },
            }
        }
        (cur, Ok(xs))
    }
}

} // verus!

//! Parsers that transform the value of another parser: `map` and `bind`.
use vstd::prelude::*;
use crate::state::{lemma_advanced_trans, ErrorModel, InputModel, Parser, ParserError, ParserState};

verus! {

/// Runs `inner` and applies `f` to its value.
#[derive(Clone)]
pub struct Mapped<P: Parser, F, B: DeepView> {
    pub inner: P,
    pub f: F,
    /// What `f` does, on views.
    pub spec_f: Ghost<spec_fn(<P::Output as DeepView>::V) -> B::V>,
}

/// Runs `inner`, then the parser that `f` makes of its value.
#[derive(Clone)]
pub struct AndThen<P: Parser, F, Q> {
    pub inner: P,
    pub f: F,
    /// The parser that `f` makes of a value, by its view.
    pub spec_f: Ghost<spec_fn(<P::Output as DeepView>::V) -> Q>,
}

/// `f` can be called on every value, and values with one view give results
/// with one view.
pub open spec fn maps_views<A: DeepView, B: DeepView, F: Fn(A) -> B>(f: F) -> bool {
    &&& forall|a: A| f.requires((a,))
    &&& forall|a1: A, a2: A, b1: B, b2: B|
        a1.deep_view() == a2.deep_view() && f.ensures((a1,), b1) && f.ensures((a2,), b2)
            ==> b1.deep_view() == b2.deep_view()
}

/// The view of what `f` returns on a value whose view is `av`.
pub open spec fn view_of_map<A: DeepView, B: DeepView, F: Fn(A) -> B>(f: F, av: A::V) -> B::V {
    let (a, b) = choose|a: A, b: B| a.deep_view() == av && #[trigger] f.ensures((a,), b);
    b.deep_view()
}

/// `f` can be called on every value, always returns a well-formed parser, and
/// values with one view give parsers that parse alike.
pub open spec fn binds_views<A: DeepView, Q: Parser, F: Fn(A) -> Q>(f: F) -> bool {
    &&& forall|a: A| f.requires((a,))
    &&& forall|a: A, q: Q| f.ensures((a,), q) ==> q.wf()
    &&& forall|a1: A, a2: A, q1: Q, q2: Q|
        a1.deep_view() == a2.deep_view() && f.ensures((a1,), q1) && f.ensures((a2,), q2)
            ==> forall|s: InputModel| q1.spec_parse(s) == q2.spec_parse(s)
}

/// A parser that `f` returns on a value whose view is `av`.
pub open spec fn parser_of_bind<A: DeepView, Q: Parser, F: Fn(A) -> Q>(f: F, av: A::V) -> Q {
    let (a, q) = choose|a: A, q: Q| a.deep_view() == av && #[trigger] f.ensures((a,), q);
    q
}

/// A parser that applies `f` to the value of `p`.
pub fn map<P: Parser, B: DeepView, F: Fn(P::Output) -> B>(f: F, p: P) -> (r: Mapped<P, F, B>)
    requires
        maps_views::<P::Output, B, F>(f),
    ensures
        r.inner == p,
        r.f == f,
        r.spec_f@ == (|av: <P::Output as DeepView>::V| view_of_map::<P::Output, B, F>(f, av)),
        r.wf() == p.wf(),
{
    let r = Mapped { inner: p, f, spec_f: Ghost(|av: <P::Output as DeepView>::V| view_of_map::<P::Output, B, F>(f, av)) };
    assert forall|a: P::Output, b: B| f.ensures((a,), b) implies b.deep_view() == (r.spec_f@)(a.deep_view()) by {
        assert(exists|a2: P::Output, b2: B| a2.deep_view() == a.deep_view() && #[trigger] f.ensures((a2,), b2));
    }
    r
}

/// A parser that runs `p`, then the parser that `f` makes of its value.
pub fn bind<P: Parser, Q: Parser, F: Fn(P::Output) -> Q>(f: F, p: P) -> (r: AndThen<P, F, Q>)
    requires
        binds_views::<P::Output, Q, F>(f),
    ensures
        r.inner == p,
        r.f == f,
        r.spec_f@ == (|av: <P::Output as DeepView>::V| parser_of_bind::<P::Output, Q, F>(f, av)),
        r.wf() == p.wf(),
{
    let r = AndThen { inner: p, f, spec_f: Ghost(|av: <P::Output as DeepView>::V| parser_of_bind::<P::Output, Q, F>(f, av)) };
    assert forall|a: P::Output, q: Q| f.ensures((a,), q) implies
        (forall|s: InputModel| q.spec_parse(s) == (r.spec_f@)(a.deep_view()).spec_parse(s)) by {
        assert(exists|a2: P::Output, q2: Q| a2.deep_view() == a.deep_view() && #[trigger] f.ensures((a2,), q2));
    }
    r
}

impl<P: Parser, B: DeepView, F: Fn(P::Output) -> B> Parser for Mapped<P, F, B> {
    type Output = B;

    open spec fn spec_parse(&self, s: InputModel) -> (InputModel, Result<B::V, ErrorModel>) {
        let (s1, r1) = self.inner.spec_parse(s);
        match r1 {
            Ok(a) => (s1, Ok((self.spec_f@)(a))),
            Err(e) => (s1, Err(e)),
        }
    }

    open spec fn wf(&self) -> bool {
        &&& self.inner.wf()
        &&& forall|a: P::Output| self.f.requires((a,))
        &&& forall|a: P::Output, b: B| self.f.ensures((a,), b) ==> b.deep_view() == (self.spec_f@)(a.deep_view())
    }

    fn parse(&self, s: ParserState) -> (r: (ParserState, Result<B, ParserError>)) {
        let (s1, r1) = self.inner.parse(s);
        match r1 {
            Ok(a) => {
                let b = (self.f)(a);
                (s1, Ok(b))
            },
            Err(e) => (s1, Err(e)),
        }
    }
}

impl<P: Parser, Q: Parser, F: Fn(P::Output) -> Q> Parser for AndThen<P, F, Q> {
    type Output = Q::Output;

    open spec fn spec_parse(&self, s: InputModel) -> (InputModel, Result<<Q::Output as DeepView>::V, ErrorModel>) {
        let (s1, r1) = self.inner.spec_parse(s);
        match r1 {
            Ok(a) => (self.spec_f@)(a).spec_parse(s1),
            Err(e) => (s1, Err(e)),
        }
    }

    open spec fn wf(&self) -> bool {
        &&& self.inner.wf()
        &&& forall|a: P::Output| self.f.requires((a,))
        &&& forall|a: P::Output, q: Q| self.f.ensures((a,), q) ==> q.wf()
        &&& forall|a: P::Output, q: Q| self.f.ensures((a,), q) ==>
            forall|s: InputModel| q.spec_parse(s) == (self.spec_f@)(a.deep_view()).spec_parse(s)
    }

    fn parse(&self, s: ParserState) -> (r: (ParserState, Result<Q::Output, ParserError>)) {
        let ghost s0 = s@;
        let (s1, r1) = self.inner.parse(s);
        match r1 {
            Ok(a) => {
                let q = (self.f)(a);
                let ghost m = s1@;
                let (s2, r2) = q.parse(s1);
                proof {
                    lemma_advanced_trans(s0, m, s2@);
                }
                (s2, r2)
            },
            Err(e) => (s1, Err(e)),
        }
    }
}

} // verus!

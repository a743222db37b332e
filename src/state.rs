//! Input states, errors, the `Parser` trait and the driver.
use vstd::prelude::*;
use vstd::string::*;

verus! {

/// What a parser sees of the input: the text that remains and its absolute
/// offset in the original input.
pub ghost struct InputModel {
    pub text: Seq<char>,
    pub pos: nat,
}

/// What a failure says: a description and a position.
pub ghost struct ErrorModel {
    pub desc: Seq<char>,
    pub pos: nat,
}

/// The remaining input and the absolute offset of its first character.
#[derive(Debug)]
pub struct ParserState {
    pub text: String,
    pub pos: usize,
}

/// A parse failure: what was expected, and where.
#[derive(Debug, Clone, PartialEq)]
pub struct ParserError {
    pub desc: String,
    pub pos: usize,
}

impl View for ParserState {
    type V = InputModel;

    open spec fn view(&self) -> InputModel {
        InputModel { text: self.text@, pos: self.pos as nat }
    }
}

impl View for ParserError {
    type V = ErrorModel;

    open spec fn view(&self) -> ErrorModel {
        ErrorModel { desc: self.desc@, pos: self.pos as nat }
    }
}

impl ParserState {
    /// The offset of the end of the input fits in a `usize`.
    pub open spec fn wf(&self) -> bool {
        self.pos + self.text@.len() <= usize::MAX
    }
}

/// The model of a parse result: the view of the value, or of the error.
pub open spec fn result_view<T: DeepView>(r: Result<T, ParserError>) -> Result<T::V, ErrorModel> {
    match r {
        Ok(v) => Ok(v.deep_view()),
        Err(e) => Err(e@),
    }
}

/// The state that a parser leaves after consuming `n` characters of `s`.
pub open spec fn advance(s: InputModel, n: nat) -> InputModel {
    InputModel { text: s.text.skip(n as int), pos: s.pos + n }
}

/// `t` is `s` after some of its characters were consumed: its text is a
/// suffix of the text of `s`, and its offset has grown by the number of
/// characters consumed.
pub open spec fn advanced_from(t: InputModel, s: InputModel) -> bool {
    t.text.len() <= s.text.len() && t == advance(s, (s.text.len() - t.text.len()) as nat)
}

/// Consuming nothing is an advance.
pub proof fn lemma_advanced_refl(s: InputModel)
    ensures
        advanced_from(s, s),
{
    assert(s.text.skip(0) =~= s.text);
}

/// Consuming `n` characters is an advance.
pub proof fn lemma_advance_is_advanced(s: InputModel, n: nat)
    requires
        n <= s.text.len(),
    ensures
        advanced_from(advance(s, n), s),
{
}

/// Two advances in a row make one.
pub proof fn lemma_advanced_trans(s: InputModel, t: InputModel, u: InputModel)
    requires
        advanced_from(t, s),
        advanced_from(u, t),
    ensures
        advanced_from(u, s),
{
    let a = s.text.len() - t.text.len();
    let b = t.text.len() - u.text.len();
    assert(s.text.skip(a).skip(b) =~= s.text.skip(a + b));
}

/// A parser: a transition from an input state to the next state and either a
/// value or an error. `spec_parse` is its meaning; `parse` runs it.
pub trait Parser: Sized {
    type Output: DeepView;

    /// The state that the parser leaves and the model of its result.
    spec fn spec_parse(&self, s: InputModel) -> (InputModel, Result<<Self::Output as DeepView>::V, ErrorModel>);

    /// What the parser's parts must satisfy for `parse` to be callable.
    spec fn wf(&self) -> bool;

    fn parse(&self, s: ParserState) -> (r: (ParserState, Result<Self::Output, ParserError>))
        requires
            self.wf(),
            s.wf(),
        ensures
            r.0.wf(),
            (r.0@, result_view(r.1)) == self.spec_parse(s@),
            advanced_from(r.0@, s@),
    ;
}

/// The state holding `len` characters of `s` from `start` on, at the absolute
/// offset of `start`.
pub fn input_sub(start: usize, len: usize, s: &ParserState) -> (r: ParserState)
    requires
        s.wf(),
        start + len <= s.text@.len(),
    ensures
        r.wf(),
        r.text@ == s.text@.subrange(start as int, start + len),
        r.pos == s.pos + start,
{
    let piece = s.text.as_str().substring_char(start, start + len);
    ParserState { text: String::from_str(piece), pos: s.pos + start }
}

/// The initial state of a parse of `input`: all of it, at offset 0.
pub fn make_input(input: String) -> (r: ParserState)
    ensures
        r.wf(),
        r.text@ == input@,
        r.pos == 0,
{
    let n = input.as_str().unicode_len();
    ParserState { text: input, pos: 0 }
}

} // verus!

verus! {

/// The result of running `p` on the whole of `input`: its value, or its
/// error placed at the absolute offset of the state where it failed.
pub open spec fn spec_run<P: Parser>(p: P, input: Seq<char>) -> Result<<P::Output as DeepView>::V, ErrorModel> {
    let (s1, r) = p.spec_parse(InputModel { text: input, pos: 0 });
    match r {
        Ok(v) => Ok(v),
        Err(e) => Err(ErrorModel { desc: e.desc, pos: s1.pos }),
    }
}

/// Runs `p` once on `input` from offset 0. A failure is reported at the
/// offset that parsing had reached where it failed.
pub fn run<P: Parser>(p: P, input: String) -> (r: Result<P::Output, ParserError>)
    requires
        p.wf(),
    ensures
        result_view(r) == spec_run(p, input@),
        r is Err ==> r->Err_0.pos <= input@.len(),
{
    let (end, result) = p.parse(make_input(input));
    match result {
        Ok(x) => Ok(x),
        Err(e) => Err(ParserError { desc: e.desc, pos: end.pos }),
    }
}

} // verus!

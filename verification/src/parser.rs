use vstd::prelude::*;

use crate::failure::Expected;
use crate::failure::ExpectedView;
use crate::failure::FailureView;
use crate::failure::ParseFailure;
use crate::node::Node;
use crate::token::Found;
use crate::token::KeywordKind;
use crate::token::Span;
use crate::token::Token;
use crate::token::TokenKind;
use crate::token::TokenView;

verus! {

/// The token cursor: an immutable token stream plus a mutable read position.
/// The position only moves forward, except through `restore`, which moves it
/// back to a previously issued checkpoint.
pub struct Parser {
    pub tokens: Vec<Token>,
    pub pos: usize,
}

/// An opaque snapshot of the cursor position, used for backtracking. It is
/// only meaningful against the cursor it was taken from.
#[derive(Debug, Clone, Copy, PartialEq, Eq, Structural)]
pub struct Checkpoint {
    pub pos: usize,
}

/// What stands at position `p`: the token's kind, or the end of the input.
pub open spec fn spec_found_at(t: Seq<TokenView>, p: int) -> Found {
    if 0 <= p < t.len() {
        Found::Token(t[p].kind)
    } else {
        Found::EndOfInput
    }
}

/// The byte offset of the end of the input: just past the last token.
pub open spec fn spec_eof_offset(t: Seq<TokenView>) -> usize {
    if t.len() == 0 {
        0
    } else {
        t[t.len() - 1].span.end
    }
}

/// The byte offset of position `p`: the start of the token there, or the
/// end-of-input offset past the last token.
pub open spec fn spec_offset_at(t: Seq<TokenView>, p: int) -> usize {
    if 0 <= p < t.len() {
        t[p].span.start
    } else {
        spec_eof_offset(t)
    }
}

/// The byte offset just after the token before position `p`.
pub open spec fn spec_end_before(t: Seq<TokenView>, p: int) -> usize {
    if 1 <= p <= t.len() {
        t[p - 1].span.end
    } else {
        0
    }
}

/// The failure produced when `kind` was demanded at position `p`.
pub open spec fn spec_failure_at(t: Seq<TokenView>, p: int, kind: TokenKind) -> FailureView {
    FailureView {
        expected: ExpectedView::Kind(kind),
        found: spec_found_at(t, p),
        offset: spec_offset_at(t, p) as int,
    }
}

/// The mathematical meaning of `expect`: consume one token of kind `kind`,
/// or fail without consuming.
pub open spec fn spec_expect(t: Seq<TokenView>, p: int, kind: TokenKind) -> Result<int, FailureView> {
    if 0 <= p < t.len() && t[p].kind == kind {
        Ok(p + 1)
    } else {
        Err(spec_failure_at(t, p, kind))
    }
}

/// The grammar-rule capability: every syntactic construct implements one
/// operation that attempts to parse an instance of itself from the current
/// cursor position. `spec_parse` is the rule's mathematical parse function;
/// `parse` must agree with it exactly, both on the value produced and on the
/// failure reported. On success the cursor stands just past the construct and
/// has consumed at least one token; on failure the stream is unchanged and
/// the position has not moved backward (callers backtrack via `restore`).
pub trait Parse: View + Sized {
    /// The rule as a mathematical function from a stream and a position to
    /// either a parsed value with the next position, or a failure.
    spec fn spec_parse(t: Seq<TokenView>, p: int) -> Result<(Self::V, int), FailureView>;

    /// The rule's name, as listed when alternatives are reported.
    spec fn spec_rule_name() -> Seq<char>;

    fn rule_name() -> (r: &'static str)
        ensures
            r@ == Self::spec_rule_name(),
    ;

    fn parse(parser: &mut Parser) -> (r: Result<Self, ParseFailure>)
        requires
            old(parser).wf(),
        ensures
            final(parser).wf(),
            final(parser).toks() == old(parser).toks(),
            old(parser).pos <= final(parser).pos,
            (match r {
                Ok(v) => Self::spec_parse(old(parser).toks(), old(parser).pos as int) == Ok::<
                    _,
                    FailureView,
                >((v@, final(parser).pos as int)) && old(parser).pos < final(parser).pos,
                Err(e) => Self::spec_parse(old(parser).toks(), old(parser).pos as int) == Err::<
                    (Self::V, int),
                    _,
                >(e@),
            }),
    ;
}

/// The outcome of ordered alternation between two rules.
#[derive(Debug, Clone, PartialEq)]
pub enum Choice<A, B> {
    First(A),
    Second(B),
}

impl<A: View, B: View> View for Choice<A, B> {
    type V = Choice<A::V, B::V>;

    open spec fn view(&self) -> Choice<A::V, B::V> {
        match self {
            Choice::First(a) => Choice::First(a.view()),
            Choice::Second(b) => Choice::Second(b.view()),
        }
    }
}

/// The mathematical meaning of `parse_node`: parse the rule and wrap its
/// value with the byte range from the start position's offset to the offset
/// just after the last consumed token.
pub open spec fn spec_parse_node<R: Parse>(t: Seq<TokenView>, p: int) -> Result<
    (Node<R::V>, int),
    FailureView,
> {
    match R::spec_parse(t, p) {
        Ok((v, q)) => Ok(
            (
                Node {
                    value: v,
                    span: Span { start: spec_offset_at(t, p), end: spec_end_before(t, q) },
                },
                q,
            ),
        ),
        Err(e) => Err(e),
    }
}

/// The mathematical meaning of ordered alternation: the first candidate that
/// matches wins; when neither matches, the failure names the label and both
/// candidates, at the unmoved position.
pub open spec fn spec_choose<A: Parse, B: Parse>(
    t: Seq<TokenView>,
    p: int,
    label: Seq<char>,
) -> Result<(Choice<A::V, B::V>, int), FailureView> {
    match A::spec_parse(t, p) {
        Ok((a, q)) => Ok((Choice::First(a), q)),
        Err(_) => match B::spec_parse(t, p) {
            Ok((b, q)) => Ok((Choice::Second(b), q)),
            Err(_) => Err(
                FailureView {
                    expected: ExpectedView::OneOf {
                        label,
                        first: A::spec_rule_name(),
                        second: B::spec_rule_name(),
                    },
                    found: spec_found_at(t, p),
                    offset: spec_offset_at(t, p) as int,
                },
            ),
        },
    }
}

/// The mathematical meaning of repetition: apply the rule as a node until its
/// first failure, collecting the nodes in order, and report the position
/// reached. A success that would not consume (which no grammar rule of this
/// crate exhibits) stops the repetition, so the function is total.
pub open spec fn spec_repeated<R: Parse>(t: Seq<TokenView>, p: int) -> (Seq<Node<R::V>>, int)
    decreases t.len() - p,
{
    if 0 <= p <= t.len() {
        match spec_parse_node::<R>(t, p) {
            Ok((n, q)) => if p < q <= t.len() {
                let (rest, fin) = spec_repeated::<R>(t, q);
                (seq![n] + rest, fin)
            } else {
                (seq![n], q)
            },
            Err(_) => (Seq::empty(), p),
        }
    } else {
        (Seq::empty(), p)
    }
}

impl Parser {
    /// The stream as a sequence of token views.
    pub open spec fn toks(&self) -> Seq<TokenView> {
        self.tokens@.map_values(|t: Token| t@)
    }

    /// The cursor is well formed: the position never passes the end.
    pub open spec fn wf(&self) -> bool {
        self.pos <= self.toks().len()
    }

    pub fn new(tokens: Vec<Token>) -> (r: Parser)
        ensures
            r.wf(),
            r.pos == 0,
            r.toks() == tokens@.map_values(|t: Token| t@),
    {
        Parser { tokens, pos: 0 }
    }

    /// Inspect the token `k` positions ahead without consuming; `None` is the
    /// end-of-input indicator.
    pub fn peek(&self, k: usize) -> (r: Option<&Token>)
        ensures
            (match r {
                Some(tok) => self.pos + k < self.toks().len() && tok@ == self.toks()[self.pos + k],
                None => self.pos + k >= self.toks().len(),
            }),
    {
        if k < self.tokens.len() && self.pos < self.tokens.len() - k {
            Some(&self.tokens[self.pos + k])
        } else {
            None
        }
    }

    /// Consume and return the current token; at the end of the input the
    /// cursor stays put and `None` is returned, again and again.
    pub fn advance(&mut self) -> (r: Option<&Token>)
        requires
            old(self).wf(),
        ensures
            final(self).wf(),
            final(self).toks() == old(self).toks(),
            (match r {
                Some(tok) => old(self).pos < old(self).toks().len() && final(self).pos == old(self).pos
                    + 1 && tok@ == old(self).toks()[old(self).pos as int],
                None => old(self).pos == old(self).toks().len() && final(self).pos == old(self).pos,
            }),
    {
        if self.pos < self.tokens.len() {
            let i = self.pos;
            self.pos = self.pos + 1;
            Some(&self.tokens[i])
        } else {
            None
        }
    }

    /// What stands at the current position, for a diagnostic.
    pub fn found_here(&self) -> (r: Found)
        ensures
            r == spec_found_at(self.toks(), self.pos as int),
    {
        if self.pos < self.tokens.len() {
            Found::Token(self.tokens[self.pos].kind)
        } else {
            Found::EndOfInput
        }
    }

    /// The byte offset of the current position, for a diagnostic.
    pub fn offset_here(&self) -> (r: usize)
        ensures
            r == spec_offset_at(self.toks(), self.pos as int),
    {
        if self.pos < self.tokens.len() {
            self.tokens[self.pos].span.start
        } else if self.tokens.len() == 0 {
            0
        } else {
            self.tokens[self.tokens.len() - 1].span.end
        }
    }

    /// The failure for a mismatch of `kind` at the current position.
    pub fn failure_expecting(&self, kind: TokenKind) -> (r: ParseFailure)
        ensures
            r@ == spec_failure_at(self.toks(), self.pos as int, kind),
    {
        ParseFailure { expected: Expected::Kind(kind), found: self.found_here(), offset: self.offset_here() }
    }

    /// The byte offset just after the last consumed token.
    pub fn end_before_here(&self) -> (r: usize)
        requires
            1 <= self.pos <= self.toks().len(),
        ensures
            r == spec_end_before(self.toks(), self.pos as int),
    {
        self.tokens[self.pos - 1].span.end
    }

    /// Match the current token's kind: consume it on success, and on a
    /// mismatch produce a failure naming `kind`, consuming nothing. This is
    /// the only primitive that produces a user-facing failure directly.
    pub fn expect(&mut self, kind: TokenKind) -> (r: Result<(), ParseFailure>)
        requires
            old(self).wf(),
        ensures
            final(self).wf(),
            final(self).toks() == old(self).toks(),
            old(self).pos <= final(self).pos,
            (match r {
                Ok(_) => spec_expect(old(self).toks(), old(self).pos as int, kind) == Ok::<
                    _,
                    FailureView,
                >(final(self).pos as int),
                Err(e) => spec_expect(old(self).toks(), old(self).pos as int, kind) == Err::<
                    int,
                    _,
                >(e@) && final(self).pos == old(self).pos,
            }),
    {
        if self.pos < self.tokens.len() && self.tokens[self.pos].kind == kind {
            self.pos = self.pos + 1;
            Ok(())
        } else {
            Err(self.failure_expecting(kind))
        }
    }

    /// `expect` for a keyword token.
    pub fn expect_keyword(&mut self, k: KeywordKind) -> (r: Result<(), ParseFailure>)
        requires
            old(self).wf(),
        ensures
            final(self).wf(),
            final(self).toks() == old(self).toks(),
            old(self).pos <= final(self).pos,
            (match r {
                Ok(_) => spec_expect(
                    old(self).toks(),
                    old(self).pos as int,
                    TokenKind::Keyword(k),
                ) == Ok::<_, FailureView>(final(self).pos as int),
                Err(e) => spec_expect(
                    old(self).toks(),
                    old(self).pos as int,
                    TokenKind::Keyword(k),
                ) == Err::<int, _>(e@) && final(self).pos == old(self).pos,
            }),
    {
        self.expect(TokenKind::Keyword(k))
    }

    /// An optional match of one keyword: consume it if it is there. Its
    /// absence is a normal outcome, not a failure.
    pub fn optional_keyword(&mut self, k: KeywordKind) -> (r: bool)
        requires
            old(self).wf(),
        ensures
            final(self).wf(),
            final(self).toks() == old(self).toks(),
            r == spec_expect(old(self).toks(), old(self).pos as int, TokenKind::Keyword(k)) is Ok,
            final(self).pos == if r {
                old(self).pos + 1
            } else {
                old(self).pos as int
            },
    {
        match self.expect(TokenKind::Keyword(k)) {
            Ok(_) => true,
            Err(_) => false,
        }
    }

    /// Take an O(1) snapshot of the position.
    pub fn checkpoint(&self) -> (c: Checkpoint)
        ensures
            c.pos == self.pos,
    {
        Checkpoint { pos: self.pos }
    }

    /// Roll the position back to a previously issued checkpoint. This is the
    /// only way the cursor moves backward, and it fully undoes every
    /// consumption made since the checkpoint was taken.
    pub fn restore(&mut self, c: Checkpoint)
        requires
            old(self).wf(),
            c.pos <= old(self).pos,
        ensures
            final(self).wf(),
            final(self).toks() == old(self).toks(),
            final(self).pos == c.pos,
    {
        self.pos = c.pos;
    }

    /// The backtracking combinator `optional`: attempt a rule; on success the
    /// cursor is left past it, and on failure the position is restored to
    /// exactly where it was, so the speculation is invisible afterwards.
    pub fn parse_optional<R: Parse>(&mut self) -> (r: Option<R>)
        requires
            old(self).wf(),
        ensures
            final(self).wf(),
            final(self).toks() == old(self).toks(),
            old(self).pos <= final(self).pos,
            (match r {
                Some(v) => R::spec_parse(old(self).toks(), old(self).pos as int) == Ok::<
                    _,
                    FailureView,
                >((v@, final(self).pos as int)) && old(self).pos < final(self).pos,
                None => R::spec_parse(old(self).toks(), old(self).pos as int) is Err && final(self).pos
                    == old(self).pos,
            }),
    {
        let cp = self.checkpoint();
        match R::parse(self) {
            Ok(v) => Some(v),
            Err(_) => {
                self.restore(cp);
                None
            },
        }
    }

    /// Parse a rule and wrap the value in a node carrying the byte range it
    /// was parsed from. This is the sole mechanism by which spans enter the
    /// tree. On failure the failure is propagated unchanged.
    pub fn parse_node<R: Parse>(&mut self) -> (r: Result<Node<R>, ParseFailure>)
        requires
            old(self).wf(),
        ensures
            final(self).wf(),
            final(self).toks() == old(self).toks(),
            old(self).pos <= final(self).pos,
            (match r {
                Ok(n) => spec_parse_node::<R>(old(self).toks(), old(self).pos as int) == Ok::<
                    _,
                    FailureView,
                >((n@, final(self).pos as int)) && old(self).pos < final(self).pos,
                Err(e) => spec_parse_node::<R>(old(self).toks(), old(self).pos as int) == Err::<
                    (Node<R::V>, int),
                    _,
                >(e@),
            }),
    {
        let start = self.offset_here();
        match R::parse(self) {
            Ok(v) => {
                let end = self.end_before_here();
                Ok(Node { value: v, span: Span { start, end } })
            },
            Err(e) => Err(e),
        }
    }

    /// `optional` over `parse_node`: a failed speculative node parse leaves
    /// the position exactly where it was.
    pub fn parse_node_optional<R: Parse>(&mut self) -> (r: Option<Node<R>>)
        requires
            old(self).wf(),
        ensures
            final(self).wf(),
            final(self).toks() == old(self).toks(),
            old(self).pos <= final(self).pos,
            (match r {
                Some(n) => spec_parse_node::<R>(old(self).toks(), old(self).pos as int) == Ok::<
                    _,
                    FailureView,
                >((n@, final(self).pos as int)) && old(self).pos < final(self).pos,
                None => spec_parse_node::<R>(old(self).toks(), old(self).pos as int) is Err
                    && final(self).pos == old(self).pos,
            }),
    {
        let cp = self.checkpoint();
        match self.parse_node::<R>() {
            Ok(n) => Some(n),
            Err(_) => {
                self.restore(cp);
                None
            },
        }
    }

    /// Ordered alternation between two candidate rules: each is attempted
    /// with `optional` semantics, in the listed order, and the first success
    /// wins — never the longest match. When neither matches, the failure
    /// names `label` and both candidates, at the unmoved position.
    pub fn choose_optional<A: Parse, B: Parse>(&mut self, label: &str) -> (r: Result<
        Choice<A, B>,
        ParseFailure,
    >)
        requires
            old(self).wf(),
        ensures
            final(self).wf(),
            final(self).toks() == old(self).toks(),
            old(self).pos <= final(self).pos,
            (match r {
                Ok(c) => spec_choose::<A, B>(old(self).toks(), old(self).pos as int, label@)
                    == Ok::<_, FailureView>((c@, final(self).pos as int)) && old(self).pos < final(self).pos,
                Err(e) => spec_choose::<A, B>(old(self).toks(), old(self).pos as int, label@)
                    == Err::<(Choice<A::V, B::V>, int), _>(e@) && final(self).pos == old(self).pos,
            }),
    {
        match self.parse_optional::<A>() {
            Some(a) => Ok(Choice::First(a)),
            None => match self.parse_optional::<B>() {
                Some(b) => Ok(Choice::Second(b)),
                None => Err(
                    ParseFailure {
                        expected: Expected::OneOf {
                            label: label.to_owned(),
                            first: A::rule_name().to_owned(),
                            second: B::rule_name().to_owned(),
                        },
                        found: self.found_here(),
                        offset: self.offset_here(),
                    },
                ),
            },
        }
    }

    /// The repetition combinator: apply the rule as a node, appending each
    /// success, until the first absence. Every grammar rule consumes at least
    /// one token on success, so the repetition takes at most one turn per
    /// remaining token.
    pub fn repeated_optional<R: Parse>(&mut self) -> (r: Vec<Node<R>>)
        requires
            old(self).wf(),
        ensures
            final(self).wf(),
            final(self).toks() == old(self).toks(),
            old(self).pos <= final(self).pos,
            r@.map_values(|n: Node<R>| n@) == spec_repeated::<R>(
                old(self).toks(),
                old(self).pos as int,
            ).0,
            final(self).pos as int == spec_repeated::<R>(old(self).toks(), old(self).pos as int).1,
    {
        let ghost t0 = self.toks();
        let ghost p0 = self.pos as int;
        let mut out: Vec<Node<R>> = Vec::new();
        let mut going = true;
        proof {
            assert(out@.map_values(|n: Node<R>| n@) + spec_repeated::<R>(t0, p0).0
                =~= spec_repeated::<R>(t0, p0).0);
        }
        while going
            invariant
                self.wf(),
                self.toks() == t0,
                p0 <= self.pos,
                going ==> spec_repeated::<R>(t0, p0).0 == out@.map_values(|n: Node<R>| n@)
                    + spec_repeated::<R>(t0, self.pos as int).0,
                going ==> spec_repeated::<R>(t0, p0).1 == spec_repeated::<R>(
                    t0,
                    self.pos as int,
                ).1,
                !going ==> spec_repeated::<R>(t0, p0).0 == out@.map_values(|n: Node<R>| n@),
                !going ==> spec_repeated::<R>(t0, p0).1 == self.pos as int,
            decreases t0.len() - self.pos + (if going { 1int } else { 0int }),
        {
            let ghost p_here = self.pos as int;
            let ghost prev = out@;
            match self.parse_node_optional::<R>() {
                Some(n) => {
                    out.push(n);
                    proof {
                        assert(spec_repeated::<R>(t0, p_here).0 == seq![n@] + spec_repeated::<R>(
                            t0,
                            self.pos as int,
                        ).0);
                        assert(out@.map_values(|n: Node<R>| n@) =~= prev.map_values(
                            |n: Node<R>| n@,
                        ) + seq![n@]);
                        assert((prev.map_values(|n: Node<R>| n@) + seq![n@]) + spec_repeated::<R>(
                            t0,
                            self.pos as int,
                        ).0 =~= prev.map_values(|n: Node<R>| n@) + (seq![n@] + spec_repeated::<R>(
                            t0,
                            self.pos as int,
                        ).0));
                    }
                },
                None => {
                    proof {
                        assert(spec_repeated::<R>(t0, self.pos as int).0
                            =~= Seq::<Node<R::V>>::empty());
                        assert(out@.map_values(|n: Node<R>| n@) + Seq::<Node<R::V>>::empty()
                            =~= out@.map_values(|n: Node<R>| n@));
                    }
                    going = false;
                },
            }
        }
        out
    }

    /// Zero or more nodes of a rule; `None` marks that the rule matched zero
    /// times, for callers that need that distinction, and then the position
    /// has not moved.
    pub fn parse_node_optional_repeated<R: Parse>(&mut self) -> (r: Option<Vec<Node<R>>>)
        requires
            old(self).wf(),
        ensures
            final(self).wf(),
            final(self).toks() == old(self).toks(),
            old(self).pos <= final(self).pos,
            final(self).pos as int == spec_repeated::<R>(old(self).toks(), old(self).pos as int).1,
            (match r {
                Some(v) => v@.len() > 0 && v@.map_values(|n: Node<R>| n@) == spec_repeated::<R>(
                    old(self).toks(),
                    old(self).pos as int,
                ).0,
                None => spec_repeated::<R>(old(self).toks(), old(self).pos as int).0.len() == 0
                    && final(self).pos == old(self).pos,
            }),
    {
        let ghost t0 = self.toks();
        let ghost p0 = self.pos as int;
        let out = self.repeated_optional::<R>();
        if out.len() == 0 {
            proof {
                assert(spec_repeated::<R>(t0, p0).0.len() == 0);
                assert(spec_repeated::<R>(t0, p0).1 == p0);
            }
            None
        } else {
            Some(out)
        }
    }
}

} // verus!

use vstd::prelude::*;

verus! {

/// The keyword families that the grammar reads from the token stream.
#[derive(Debug, Clone, Copy, PartialEq, Eq, Structural)]
pub enum KeywordKind {
    Auto,
    State,
    EndState,
    Function,
    EndFunction,
    Event,
    EndEvent,
}

/// The kind tag of a token, drawn from a fixed closed set.
#[derive(Debug, Clone, Copy, PartialEq, Eq, Structural)]
pub enum TokenKind {
    Keyword(KeywordKind),
    Identifier,
}

/// A half-open byte range into the source text.
#[derive(Debug, Clone, Copy, PartialEq, Eq, Structural)]
pub struct Span {
    pub start: usize,
    pub end: usize,
}

impl Span {
    pub fn new(start: usize, end: usize) -> (r: Span)
        ensures
            r.start == start,
            r.end == end,
    {
        Span { start, end }
    }
}

/// What the cursor saw at a mismatch: a token's kind, or the end of the input.
#[derive(Debug, Clone, Copy, PartialEq, Eq, Structural)]
pub enum Found {
    Token(TokenKind),
    EndOfInput,
}

/// One lexical token: a kind tag, the text it covers (meaningful for
/// identifiers), and its byte span in the source.
#[derive(Debug, Clone, PartialEq)]
pub struct Token {
    pub kind: TokenKind,
    pub text: String,
    pub span: Span,
}

/// The mathematical image of a token.
#[verifier::ext_equal]
pub struct TokenView {
    pub kind: TokenKind,
    pub text: Seq<char>,
    pub span: Span,
}

impl View for Token {
    type V = TokenView;

    open spec fn view(&self) -> TokenView {
        TokenView { kind: self.kind, text: self.text@, span: self.span }
    }
}

impl Token {
    pub fn new(kind: TokenKind, text: String, span: Span) -> (r: Token)
        ensures
            r@ == (TokenView { kind, text: text@, span }),
    {
        Token { kind, text, span }
    }
}

} // verus!

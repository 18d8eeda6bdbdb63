use vstd::prelude::*;

use crate::failure::FailureView;
use crate::failure::ParseFailure;
use crate::parser::spec_failure_at;
use crate::parser::Parse;
use crate::parser::Parser;
use crate::token::TokenKind;
use crate::token::TokenView;

verus! {

/// An identifier is the text of a single identifier token.
pub type Identifier = String;

/// The identifier rule: one token of kind `Identifier`, yielding its text.
pub open spec fn spec_parse_identifier(t: Seq<TokenView>, p: int) -> Result<
    (Seq<char>, int),
    FailureView,
> {
    if 0 <= p < t.len() && t[p].kind == TokenKind::Identifier {
        Ok((t[p].text, p + 1))
    } else {
        Err(spec_failure_at(t, p, TokenKind::Identifier))
    }
}

impl Parse for Identifier {
    open spec fn spec_parse(t: Seq<TokenView>, p: int) -> Result<(Seq<char>, int), FailureView> {
        spec_parse_identifier(t, p)
    }

    open spec fn spec_rule_name() -> Seq<char> {
        "Identifier"@
    }

    fn rule_name() -> (r: &'static str) {
        "Identifier"
    }

    fn parse(parser: &mut Parser) -> (r: Result<Identifier, ParseFailure>) {
        let is_ident = match parser.peek(0) {
            Some(tok) => tok.kind == TokenKind::Identifier,
            None => false,
        };
        if is_ident {
            match parser.advance() {
                Some(tok) => Ok(tok.text.clone()),
                None => {
                    proof {
                        assert(false);
                    }
                    Err(parser.failure_expecting(TokenKind::Identifier))
                },
            }
        } else {
            Err(parser.failure_expecting(TokenKind::Identifier))
        }
    }
}

} // verus!

use vstd::prelude::*;

use crate::failure::FailureView;
use crate::failure::ParseFailure;
use crate::identifier::Identifier;
use crate::node::Node;
use crate::parser::spec_expect;
use crate::parser::spec_parse_node;
use crate::parser::Parse;
use crate::parser::Parser;
use crate::token::KeywordKind;
use crate::token::TokenKind;
use crate::token::TokenView;

verus! {

/// The function-like sub-construct of a state block:
/// `<function> ::= 'Function' <identifier> 'EndFunction'`.
#[derive(Debug, Clone, PartialEq)]
pub struct Function {
    pub name: Node<Identifier>,
}

/// The mathematical image of a function.
#[verifier::ext_equal]
pub struct FunctionView {
    pub name: Node<Seq<char>>,
}

impl View for Function {
    type V = FunctionView;

    open spec fn view(&self) -> FunctionView {
        FunctionView { name: self.name@ }
    }
}

/// The function rule: the open keyword anchors the construct; afterwards the
/// name and the close keyword are mandatory.
pub open spec fn spec_parse_function(t: Seq<TokenView>, p: int) -> Result<
    (FunctionView, int),
    FailureView,
> {
    match spec_expect(t, p, TokenKind::Keyword(KeywordKind::Function)) {
        Err(e) => Err(e),
        Ok(p1) => match spec_parse_node::<Identifier>(t, p1) {
            Err(e) => Err(e),
            Ok((name, p2)) => match spec_expect(t, p2, TokenKind::Keyword(KeywordKind::EndFunction)) {
                Err(e) => Err(e),
                Ok(p3) => Ok((FunctionView { name }, p3)),
            },
        },
    }
}

impl Parse for Function {
    open spec fn spec_parse(t: Seq<TokenView>, p: int) -> Result<(FunctionView, int), FailureView> {
        spec_parse_function(t, p)
    }

    open spec fn spec_rule_name() -> Seq<char> {
        "Function"@
    }

    fn rule_name() -> (r: &'static str) {
        "Function"
    }

    fn parse(parser: &mut Parser) -> (r: Result<Function, ParseFailure>) {
        match parser.expect_keyword(KeywordKind::Function) {
            Err(e) => {
                return Err(e);
            },
            Ok(_) => {},
        }
        let name = match parser.parse_node::<Identifier>() {
            Ok(n) => n,
            Err(e) => {
                return Err(e);
            },
        };
        match parser.expect_keyword(KeywordKind::EndFunction) {
            Err(e) => {
                return Err(e);
            },
            Ok(_) => {},
        }
        Ok(Function { name })
    }
}

} // verus!

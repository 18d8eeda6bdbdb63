use vstd::prelude::*;

use crate::failure::FailureView;
use crate::failure::ParseFailure;
use crate::identifier::Identifier;
use crate::node::Node;
use crate::parser::spec_expect;
use crate::parser::spec_parse_node;
use crate::parser::Parse;
use crate::parser::Parser;
use crate::token::KeywordKind;
use crate::token::TokenKind;
use crate::token::TokenView;

verus! {

/// The event-like sub-construct of a state block:
/// `<event> ::= 'Event' <identifier> 'EndEvent'`.
#[derive(Debug, Clone, PartialEq)]
pub struct Event {
    pub name: Node<Identifier>,
}

/// The mathematical image of an event.
#[verifier::ext_equal]
pub struct EventView {
    pub name: Node<Seq<char>>,
}

impl View for Event {
    type V = EventView;

    open spec fn view(&self) -> EventView {
        EventView { name: self.name@ }
    }
}

/// The event rule: the open keyword anchors the construct; afterwards the
/// name and the close keyword are mandatory.
pub open spec fn spec_parse_event(t: Seq<TokenView>, p: int) -> Result<
    (EventView, int),
    FailureView,
> {
    match spec_expect(t, p, TokenKind::Keyword(KeywordKind::Event)) {
        Err(e) => Err(e),
        Ok(p1) => match spec_parse_node::<Identifier>(t, p1) {
            Err(e) => Err(e),
            Ok((name, p2)) => match spec_expect(t, p2, TokenKind::Keyword(KeywordKind::EndEvent)) {
                Err(e) => Err(e),
                Ok(p3) => Ok((EventView { name }, p3)),
            },
        },
    }
}

impl Parse for Event {
    open spec fn spec_parse(t: Seq<TokenView>, p: int) -> Result<(EventView, int), FailureView> {
        spec_parse_event(t, p)
    }

    open spec fn spec_rule_name() -> Seq<char> {
        "Event"@
    }

    fn rule_name() -> (r: &'static str) {
        "Event"
    }

    fn parse(parser: &mut Parser) -> (r: Result<Event, ParseFailure>) {
        match parser.expect_keyword(KeywordKind::Event) {
            Err(e) => {
                return Err(e);
            },
            Ok(_) => {},
        }
        let name = match parser.parse_node::<Identifier>() {
            Ok(n) => n,
            Err(e) => {
                return Err(e);
            },
        };
        match parser.expect_keyword(KeywordKind::EndEvent) {
            Err(e) => {
                return Err(e);
            },
            Ok(_) => {},
        }
        Ok(Event { name })
    }
}

} // verus!

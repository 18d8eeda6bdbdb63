use vstd::prelude::*;

use crate::event::Event;
use crate::event::EventView;
use crate::failure::FailureView;
use crate::failure::ParseFailure;
use crate::function::Function;
use crate::function::FunctionView;
use crate::identifier::Identifier;
use crate::node::Node;
use crate::parser::spec_choose;
use crate::parser::spec_expect;
use crate::parser::spec_parse_node;
use crate::parser::spec_repeated;
use crate::parser::Choice;
use crate::parser::Parse;
use crate::parser::Parser;
use crate::token::KeywordKind;
use crate::token::TokenKind;
use crate::token::TokenView;

verus! {

/// The content union of a state block: at each content position exactly one
/// of two alternative sub-constructs stands.
/// `<state content> ::= (<function> | <event>)`
#[derive(Debug, Clone, PartialEq)]
pub enum StateContent {
    Function(Function),
    Event(Event),
}

/// The mathematical image of a state content.
#[verifier::ext_equal]
pub enum StateContentView {
    Function(FunctionView),
    Event(EventView),
}

impl View for StateContent {
    type V = StateContentView;

    open spec fn view(&self) -> StateContentView {
        match self {
            StateContent::Function(f) => StateContentView::Function(f@),
            StateContent::Event(e) => StateContentView::Event(e@),
        }
    }
}

/// The content rule: ordered alternation between the event and the function
/// alternative, the event candidate listed first.
pub open spec fn spec_parse_state_content(t: Seq<TokenView>, p: int) -> Result<
    (StateContentView, int),
    FailureView,
> {
    match spec_choose::<Event, Function>(t, p, "State Contents"@) {
        Err(e) => Err(e),
        Ok((c, q)) => Ok(
            (
                match c {
                    Choice::First(e) => StateContentView::Event(e),
                    Choice::Second(f) => StateContentView::Function(f),
                },
                q,
            ),
        ),
    }
}

impl Parse for StateContent {
    open spec fn spec_parse(t: Seq<TokenView>, p: int) -> Result<
        (StateContentView, int),
        FailureView,
    > {
        spec_parse_state_content(t, p)
    }

    open spec fn spec_rule_name() -> Seq<char> {
        "State Content"@
    }

    fn rule_name() -> (r: &'static str) {
        "State Content"
    }

    fn parse(parser: &mut Parser) -> (r: Result<StateContent, ParseFailure>) {
        match parser.choose_optional::<Event, Function>("State Contents") {
            Err(e) => Err(e),
            Ok(c) => match c {
                Choice::First(e) => Ok(StateContent::Event(e)),
                Choice::Second(f) => Ok(StateContent::Function(f)),
            },
        }
    }
}

/// The representative block construct: an optional modifier, the open keyword
/// as the committing anchor, a mandatory name, repeated contents, and the
/// mandatory close keyword.
/// `<state> ::= ['Auto'] 'State' <identifier> <state content>* 'EndState'`
#[derive(Debug, Clone, PartialEq)]
pub struct State {
    pub is_auto: bool,
    pub name: Node<Identifier>,
    pub contents: Option<Vec<Node<StateContent>>>,
}

/// The mathematical image of a state block.
#[verifier::ext_equal]
pub struct StateView {
    pub is_auto: bool,
    pub name: Node<Seq<char>>,
    pub contents: Option<Seq<Node<StateContentView>>>,
}

impl View for State {
    type V = StateView;

    open spec fn view(&self) -> StateView {
        StateView {
            is_auto: self.is_auto,
            name: self.name@,
            contents: match self.contents {
                Option::None => Option::None,
                Option::Some(v) => Option::Some(v@.map_values(|n: Node<StateContent>| n@)),
            },
        }
    }
}

impl State {
    pub fn new(
        is_auto: bool,
        name: Node<Identifier>,
        contents: Option<Vec<Node<StateContent>>>,
    ) -> (r: Self)
        ensures
            r.is_auto == is_auto,
            r.name == name,
            r.contents == contents,
    {
        Self { is_auto, name, contents }
    }
}

/// The state rule. The modifier is an optional attempt; the open keyword,
/// the name, and the close keyword are mandatory once reached; the contents
/// are a repetition allowed zero matches, where zero is recorded as an absent
/// marker rather than an empty sequence.
pub open spec fn spec_parse_state(t: Seq<TokenView>, p: int) -> Result<
    (StateView, int),
    FailureView,
> {
    let is_auto = spec_expect(t, p, TokenKind::Keyword(KeywordKind::Auto)) is Ok;
    let p0 = if is_auto {
        p + 1
    } else {
        p
    };
    match spec_expect(t, p0, TokenKind::Keyword(KeywordKind::State)) {
        Err(e) => Err(e),
        Ok(p1) => match spec_parse_node::<Identifier>(t, p1) {
            Err(e) => Err(e),
            Ok((name, p2)) => {
                let (contents, p3) = spec_repeated::<StateContent>(t, p2);
                match spec_expect(t, p3, TokenKind::Keyword(KeywordKind::EndState)) {
                    Err(e) => Err(e),
                    Ok(p4) => Ok(
                        (
                            StateView {
                                is_auto,
                                name,
                                contents: if contents.len() == 0 {
                                    Option::None
                                } else {
                                    Option::Some(contents)
                                },
                            },
                            p4,
                        ),
                    ),
                }
            },
        },
    }
}

impl Parse for State {
    open spec fn spec_parse(t: Seq<TokenView>, p: int) -> Result<(StateView, int), FailureView> {
        spec_parse_state(t, p)
    }

    open spec fn spec_rule_name() -> Seq<char> {
        "State"@
    }

    fn rule_name() -> (r: &'static str) {
        "State"
    }

    fn parse(parser: &mut Parser) -> (r: Result<State, ParseFailure>) {
        let is_auto = parser.optional_keyword(KeywordKind::Auto);
        match parser.expect_keyword(KeywordKind::State) {
            Err(e) => {
                return Err(e);
            },
            Ok(_) => {},
        }
        let state_name = match parser.parse_node::<Identifier>() {
            Ok(n) => n,
            Err(e) => {
                return Err(e);
            },
        };
        let state_content = parser.parse_node_optional_repeated::<StateContent>();
        match parser.expect_keyword(KeywordKind::EndState) {
            Err(e) => {
                return Err(e);
            },
            Ok(_) => {},
        }
        Ok(State::new(is_auto, state_name, state_content))
    }
}

} // verus!

use papyrus_parser::failure::Expected;
use papyrus_parser::failure::ParseFailure;
use papyrus_parser::node::Node;
use papyrus_parser::parser::Choice;
use papyrus_parser::parser::Parse;
use papyrus_parser::parser::Parser;
use papyrus_parser::state::State;
use papyrus_parser::state::StateContent;
use papyrus_parser::token::Found;
use papyrus_parser::token::KeywordKind;
use papyrus_parser::token::Span;
use papyrus_parser::token::Token;
use papyrus_parser::token::TokenKind;

/// A minimal whitespace scanner standing in for the external lexer: each
/// whitespace-separated word becomes one token with its real byte span.
fn lex(src: &str) -> Vec<Token> {
    let bytes = src.as_bytes();
    let mut out = Vec::new();
    let mut i: usize = 0;
    while i < bytes.len() {
        if bytes[i].is_ascii_whitespace() {
            i += 1;
            continue;
        }
        let start = i;
        while i < bytes.len() && !bytes[i].is_ascii_whitespace() {
            i += 1;
        }
        let word = &src[start..i];
        let kind = match word {
            "Auto" => TokenKind::Keyword(KeywordKind::Auto),
            "State" => TokenKind::Keyword(KeywordKind::State),
            "EndState" => TokenKind::Keyword(KeywordKind::EndState),
            "Function" => TokenKind::Keyword(KeywordKind::Function),
            "EndFunction" => TokenKind::Keyword(KeywordKind::EndFunction),
            "Event" => TokenKind::Keyword(KeywordKind::Event),
            "EndEvent" => TokenKind::Keyword(KeywordKind::EndEvent),
            _ => TokenKind::Identifier,
        };
        out.push(Token::new(kind, word.to_string(), Span::new(start, i)));
    }
    out
}

fn run_test(src: &str, expected: State) {
    let mut parser = Parser::new(lex(src));
    let res = State::parse(&mut parser);
    assert_eq!(res, Ok(expected));
}

#[test]
fn test_state_parser() {
    let src = "Auto State MyState EndState";
    let expected = State::new(true, Node::new("MyState".to_string(), Span::new(11, 18)), None);

    run_test(src, expected);
}

#[test]
fn state_without_modifier() {
    let src = "State MyState EndState";
    let expected = State::new(false, Node::new("MyState".to_string(), Span::new(6, 13)), None);

    run_test(src, expected);
}

#[test]
fn missing_close_keyword_fails_at_end_of_input() {
    let src = "State MyState";
    let mut parser = Parser::new(lex(src));
    let res = State::parse(&mut parser);
    let expected_failure = ParseFailure {
        expected: Expected::Kind(TokenKind::Keyword(KeywordKind::EndState)),
        found: Found::EndOfInput,
        offset: 13,
    };
    assert_eq!(res, Err(expected_failure));
}

#[test]
fn missing_open_keyword_fails_at_first_token() {
    let src = "Foo";
    let mut parser = Parser::new(lex(src));
    let res = State::parse(&mut parser);
    let expected_failure = ParseFailure {
        expected: Expected::Kind(TokenKind::Keyword(KeywordKind::State)),
        found: Found::Token(TokenKind::Identifier),
        offset: 0,
    };
    assert_eq!(res, Err(expected_failure));
}

#[test]
fn content_union_matching_neither_names_both_candidates() {
    let src = "Foo";
    let mut parser = Parser::new(lex(src));
    let res = StateContent::parse(&mut parser);
    let expected_failure = ParseFailure {
        expected: Expected::OneOf {
            label: "State Contents".to_string(),
            first: "Event".to_string(),
            second: "Function".to_string(),
        },
        found: Found::Token(TokenKind::Identifier),
        offset: 0,
    };
    assert_eq!(res, Err(expected_failure));
    assert_eq!(parser.pos, 0);
}

#[test]
fn state_with_contents() {
    let src = "State S Function F EndFunction Event E EndEvent EndState";
    let mut parser = Parser::new(lex(src));
    let res = State::parse(&mut parser).unwrap();
    assert!(!res.is_auto);
    assert_eq!(res.name, Node::new("S".to_string(), Span::new(6, 7)));
    let contents = res.contents.unwrap();
    assert_eq!(contents.len(), 2);
    assert_eq!(contents[0].span, Span::new(8, 30));
    match &contents[0].value {
        StateContent::Function(f) => {
            assert_eq!(f.name, Node::new("F".to_string(), Span::new(17, 18)));
        }
        other => panic!("expected a function first, got {:?}", other),
    }
    assert_eq!(contents[1].span, Span::new(31, 47));
    match &contents[1].value {
        StateContent::Event(e) => {
            assert_eq!(e.name, Node::new("E".to_string(), Span::new(37, 38)));
        }
        other => panic!("expected an event second, got {:?}", other),
    }
    assert_eq!(parser.pos, parser.tokens.len());
}

#[test]
fn failed_optional_leaves_position_unchanged() {
    let src = "State Foo EndState";
    let mut parser = Parser::new(lex(src));
    parser.advance();
    assert_eq!(parser.pos, 1);
    let attempt = parser.parse_optional::<papyrus_parser::event::Event>();
    assert!(attempt.is_none());
    assert_eq!(parser.pos, 1);
    let attempt = parser.parse_node_optional::<StateContent>();
    assert!(attempt.is_none());
    assert_eq!(parser.pos, 1);
}

#[test]
fn ambiguous_alternatives_resolve_to_the_first_listed() {
    // Both candidates are the identifier rule, so both can match the same
    // prefix; the outcome must always be the first.
    let src = "Foo";
    let mut parser = Parser::new(lex(src));
    let res = parser.choose_optional::<String, String>("Name");
    assert_eq!(res, Ok(Choice::First("Foo".to_string())));
}

#[test]
fn repetition_stops_at_the_first_absence_and_may_match_zero_times() {
    let src = "EndState";
    let mut parser = Parser::new(lex(src));
    let contents = parser.parse_node_optional_repeated::<StateContent>();
    assert_eq!(contents, None);
    assert_eq!(parser.pos, 0);

    let src = "Event E EndEvent Foo Bar";
    let mut parser = Parser::new(lex(src));
    let contents = parser.parse_node_optional_repeated::<StateContent>().unwrap();
    assert_eq!(contents.len(), 1);
    assert_eq!(parser.pos, 3);
}

#[test]
fn checkpoint_restore_rolls_the_cursor_back() {
    let src = "State Foo EndState";
    let mut parser = Parser::new(lex(src));
    let cp = parser.checkpoint();
    parser.advance();
    parser.advance();
    assert_eq!(parser.pos, 2);
    parser.restore(cp);
    assert_eq!(parser.pos, 0);
    let first = parser.advance().unwrap().clone();
    assert_eq!(first.kind, TokenKind::Keyword(KeywordKind::State));
}

#[test]
fn advance_at_end_of_input_stays_put() {
    let src = "Foo";
    let mut parser = Parser::new(lex(src));
    assert!(parser.advance().is_some());
    assert!(parser.advance().is_none());
    assert!(parser.advance().is_none());
    assert_eq!(parser.pos, 1);
    assert!(parser.peek(0).is_none());
}

fn keyword_token(k: KeywordKind) -> Token {
    Token::new(TokenKind::Keyword(k), String::new(), Span::new(0, 0))
}

fn identifier_token(text: &str) -> Token {
    Token::new(TokenKind::Identifier, text.to_string(), Span::new(0, 0))
}

/// Renders a parsed state back to a token stream, as the external
/// pretty-printer followed by the lexer would.
fn render_tokens(s: &State) -> Vec<Token> {
    let mut out = Vec::new();
    if s.is_auto {
        out.push(keyword_token(KeywordKind::Auto));
    }
    out.push(keyword_token(KeywordKind::State));
    out.push(identifier_token(&s.name.value));
    if let Some(contents) = &s.contents {
        for n in contents {
            match &n.value {
                StateContent::Function(f) => {
                    out.push(keyword_token(KeywordKind::Function));
                    out.push(identifier_token(&f.name.value));
                    out.push(keyword_token(KeywordKind::EndFunction));
                }
                StateContent::Event(e) => {
                    out.push(keyword_token(KeywordKind::Event));
                    out.push(identifier_token(&e.name.value));
                    out.push(keyword_token(KeywordKind::EndEvent));
                }
            }
        }
    }
    out.push(keyword_token(KeywordKind::EndState));
    out
}

fn same_state_value(a: &State, b: &State) -> bool {
    if a.is_auto != b.is_auto || a.name.value != b.name.value {
        return false;
    }
    match (&a.contents, &b.contents) {
        (None, None) => true,
        (Some(x), Some(y)) => {
            x.len() == y.len() && x.iter().zip(y.iter()).all(|(m, n)| match (&m.value, &n.value) {
                (StateContent::Function(f), StateContent::Function(g)) => {
                    f.name.value == g.name.value
                }
                (StateContent::Event(e), StateContent::Event(d)) => e.name.value == d.name.value,
                _ => false,
            })
        }
        _ => false,
    }
}

#[test]
fn round_trip_keeps_the_tree_value() {
    let src = "Auto State S Event E EndEvent Function F EndFunction EndState";
    let mut parser = Parser::new(lex(src));
    let first = State::parse(&mut parser).unwrap();
    let mut reparser = Parser::new(render_tokens(&first));
    let second = State::parse(&mut reparser).unwrap();
    assert!(same_state_value(&first, &second));

    let src = "State S EndState";
    let mut parser = Parser::new(lex(src));
    let first = State::parse(&mut parser).unwrap();
    let mut reparser = Parser::new(render_tokens(&first));
    let second = State::parse(&mut reparser).unwrap();
    assert!(same_state_value(&first, &second));
}

#[test]
fn empty_input_fails_expecting_the_open_keyword() {
    let mut parser = Parser::new(Vec::new());
    let res = State::parse(&mut parser);
    let expected_failure = ParseFailure {
        expected: Expected::Kind(TokenKind::Keyword(KeywordKind::State)),
        found: Found::EndOfInput,
        offset: 0,
    };
    assert_eq!(res, Err(expected_failure));
}

#[test]
fn parse_stops_after_the_close_keyword() {
    let src = "State S EndState Trailing";
    let mut parser = Parser::new(lex(src));
    let res = State::parse(&mut parser).unwrap();
    assert_eq!(res.name.value, "S");
    assert_eq!(parser.pos, 3);
    let rest = parser.advance().unwrap();
    assert_eq!(rest.kind, TokenKind::Identifier);
}

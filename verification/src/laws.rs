use vstd::prelude::*;

use crate::event::spec_parse_event;
use crate::failure::FailureView;
use crate::function::spec_parse_function;
use crate::node::Node;
use crate::parser::Choice;
use crate::parser::Parse;
use crate::parser::spec_choose;
use crate::parser::spec_end_before;
use crate::parser::spec_expect;
use crate::parser::spec_offset_at;
use crate::parser::spec_parse_node;
use crate::parser::spec_repeated;
use crate::state::State;
use crate::state::StateContent;
use crate::state::StateContentView;
use crate::state::StateView;
use crate::state::spec_parse_state;
use crate::state::spec_parse_state_content;
use crate::token::KeywordKind;
use crate::token::Span;
use crate::token::TokenKind;
use crate::token::TokenView;

verus! {

/// Every successful event parse consumes at least one token and never passes
/// the end of the stream.
pub proof fn lemma_event_consumes(t: Seq<TokenView>, p: int)
    ensures
        spec_parse_event(t, p) matches Ok((v, q)) ==> p < q <= t.len(),
{
}

/// Every successful function parse consumes at least one token and never
/// passes the end of the stream.
pub proof fn lemma_function_consumes(t: Seq<TokenView>, p: int)
    ensures
        spec_parse_function(t, p) matches Ok((v, q)) ==> p < q <= t.len(),
{
}

/// Every successful state-content parse consumes at least one token and never
/// passes the end of the stream.
pub proof fn lemma_state_content_consumes(t: Seq<TokenView>, p: int)
    ensures
        spec_parse_state_content(t, p) matches Ok((v, q)) ==> p < q <= t.len(),
{
    lemma_event_consumes(t, p);
    lemma_function_consumes(t, p);
}

/// Law (deterministic first match): whenever the first candidate of an
/// ordered alternation can match at the current position, the alternation
/// yields exactly the first candidate's result, whatever the second candidate
/// would have done there.
pub proof fn lemma_first_match<A: Parse, B: Parse>(t: Seq<TokenView>, p: int, label: Seq<char>)
    requires
        A::spec_parse(t, p) is Ok,
    ensures
        spec_choose::<A, B>(t, p, label) == Ok::<_, FailureView>(
            (
                Choice::First::<A::V, B::V>(A::spec_parse(t, p)->Ok_0.0),
                A::spec_parse(t, p)->Ok_0.1,
            ),
        ),
{
}

/// Law (termination bound): over any rule that consumes at least one token on
/// every success, the repetition ends at or before the end of the stream and
/// collects at most one node per remaining token.
pub proof fn lemma_repeated_bounded<R: Parse>(t: Seq<TokenView>, p: int)
    requires
        0 <= p <= t.len(),
        forall|q: int|
            0 <= q <= t.len() && (#[trigger] R::spec_parse(t, q)) is Ok ==> q < R::spec_parse(
                t,
                q,
            )->Ok_0.1 <= t.len(),
    ensures
        ({
            let (s, fin) = spec_repeated::<R>(t, p);
            p <= fin <= t.len() && s.len() <= fin - p
        }),
    decreases t.len() - p,
{
    match spec_parse_node::<R>(t, p) {
        Ok((n, q)) => {
            assert(R::spec_parse(t, p) is Ok);
            assert(p < q <= t.len());
            lemma_repeated_bounded::<R>(t, q);
        },
        Err(_) => {},
    }
}

/// Law (termination bound) for the contents of a state block: each content
/// consumes at least one token, so the repetition ends within the remaining
/// token count.
pub proof fn lemma_state_contents_bounded(t: Seq<TokenView>, p: int)
    requires
        0 <= p <= t.len(),
    ensures
        ({
            let (s, fin) = spec_repeated::<StateContent>(t, p);
            p <= fin <= t.len() && s.len() <= fin - p
        }),
{
    assert forall|q: int|
        0 <= q <= t.len() && (#[trigger] <StateContent as Parse>::spec_parse(t, q)) is Ok implies q
        < <StateContent as Parse>::spec_parse(t, q)->Ok_0.1 <= t.len() by {
        lemma_state_content_consumes(t, q);
    }
    lemma_repeated_bounded::<StateContent>(t, p);
}

/// One span fully contains another (not necessarily strictly).
pub open spec fn span_contains(outer: Span, inner: Span) -> bool {
    outer.start <= inner.start && inner.end <= outer.end
}

/// A well-formed token stream, as a lexer produces it: every span runs
/// forward, and consecutive spans never run backward.
pub open spec fn wf_tokens(t: Seq<TokenView>) -> bool {
    &&& (forall|i: int| 0 <= i < t.len() ==> (#[trigger] t[i].span).start <= t[i].span.end)
    &&& (forall|i: int| 0 < i < t.len() ==> t[i - 1].span.end <= (#[trigger] t[i].span).start)
}

/// The byte range a node parsed from position `p` up to (not including)
/// position `q` carries.
pub open spec fn spec_node_range(t: Seq<TokenView>, p: int, q: int) -> Span {
    Span { start: spec_offset_at(t, p), end: spec_end_before(t, q) }
}

proof fn lemma_span_order(t: Seq<TokenView>, i: int, j: int)
    requires
        wf_tokens(t),
        0 <= i <= j < t.len(),
    ensures
        t[i].span.start <= t[j].span.start,
        t[i].span.end <= t[j].span.end,
        t[i].span.start <= t[j].span.end,
    decreases j - i,
{
    if i < j {
        lemma_span_order(t, i, j - 1);
    }
}

proof fn lemma_range_contains(t: Seq<TokenView>, p: int, q: int, p1: int, q1: int)
    requires
        wf_tokens(t),
        0 <= p <= p1 < q1 <= q <= t.len(),
    ensures
        span_contains(spec_node_range(t, p, q), spec_node_range(t, p1, q1)),
{
    lemma_span_order(t, p, p1);
    lemma_span_order(t, q1 - 1, q - 1);
}

/// The span of a content node contains the span of the name node nested in
/// whichever alternative it holds.
pub open spec fn content_node_contained(n: Node<StateContentView>) -> bool {
    match n.value {
        StateContentView::Event(e) => span_contains(n.span, e.name.span),
        StateContentView::Function(f) => span_contains(n.span, f.name.span),
    }
}

proof fn lemma_event_node(t: Seq<TokenView>, p: int)
    requires
        wf_tokens(t),
    ensures
        (match spec_parse_event(t, p) {
            Ok((v, q)) => 0 <= p && p < q <= t.len() && span_contains(
                spec_node_range(t, p, q),
                v.name.span,
            ),
            Err(_) => true,
        }),
{
    if spec_parse_event(t, p) is Ok {
        lemma_range_contains(t, p, p + 3, p + 1, p + 2);
    }
}

proof fn lemma_function_node(t: Seq<TokenView>, p: int)
    requires
        wf_tokens(t),
    ensures
        (match spec_parse_function(t, p) {
            Ok((v, q)) => 0 <= p && p < q <= t.len() && span_contains(
                spec_node_range(t, p, q),
                v.name.span,
            ),
            Err(_) => true,
        }),
{
    if spec_parse_function(t, p) is Ok {
        lemma_range_contains(t, p, p + 3, p + 1, p + 2);
    }
}

proof fn lemma_content_node(t: Seq<TokenView>, p: int)
    requires
        wf_tokens(t),
    ensures
        (match spec_parse_node::<StateContent>(t, p) {
            Ok((n, q)) => 0 <= p && p < q <= t.len() && n.span == spec_node_range(t, p, q)
                && content_node_contained(n),
            Err(_) => true,
        }),
{
    lemma_event_node(t, p);
    lemma_function_node(t, p);
}

proof fn lemma_contents_nodes(t: Seq<TokenView>, p: int)
    requires
        wf_tokens(t),
        0 <= p <= t.len(),
    ensures
        ({
            let (s, fin) = spec_repeated::<StateContent>(t, p);
            &&& p <= fin <= t.len()
            &&& (forall|i: int| 0 <= i < s.len() ==> content_node_contained(#[trigger] s[i]))
            &&& (s.len() > 0 ==> p < fin && (forall|i: int|
                0 <= i < s.len() ==> spec_offset_at(t, p) <= (#[trigger] s[i]).span.start
                    && s[i].span.end <= spec_end_before(t, fin)))
        }),
    decreases t.len() - p,
{
    lemma_state_contents_bounded(t, p);
    let (s, fin) = spec_repeated::<StateContent>(t, p);
    match spec_parse_node::<StateContent>(t, p) {
        Ok((n, q)) => {
            lemma_content_node(t, p);
            lemma_contents_nodes(t, q);
            let (rest, fin2) = spec_repeated::<StateContent>(t, q);
            assert(s == seq![n] + rest);
            assert(fin == fin2);
            assert(q <= fin);
            assert(1 <= q);
            lemma_span_order(t, q - 1, fin - 1);
            assert(n.span.end <= spec_end_before(t, fin));
            assert forall|i: int|
                0 <= i < s.len() implies content_node_contained(#[trigger] s[i])
                && spec_offset_at(t, p) <= s[i].span.start && s[i].span.end <= spec_end_before(
                t,
                fin,
            ) by {
                if i == 0 {
                    assert(s[i] == n);
                } else {
                    assert(s[i] == rest[i - 1]);
                    assert(rest.len() > 0);
                    assert(q < t.len());
                    lemma_span_order(t, p, q);
                    assert(spec_offset_at(t, p) <= spec_offset_at(t, q));
                }
            }
        },
        Err(_) => {},
    }
}

/// Law (span containment): the span of a parsed state node fully contains the
/// span of its name node and the span of every content node nested in it, and
/// each content node's span in turn contains the span of the name node of the
/// alternative it holds.
pub proof fn lemma_state_span_containment(t: Seq<TokenView>, p: int)
    requires
        wf_tokens(t),
        0 <= p <= t.len(),
    ensures
        (match spec_parse_node::<State>(t, p) {
            Ok((n, q)) => {
                &&& span_contains(n.span, n.value.name.span)
                &&& (match n.value.contents {
                    Option::Some(cs) => forall|i: int|
                        0 <= i < cs.len() ==> span_contains(n.span, (#[trigger] cs[i]).span)
                            && content_node_contained(cs[i]),
                    Option::None => true,
                })
            },
            Err(_) => true,
        }),
{
    if spec_parse_state(t, p) is Ok {
        let is_auto = spec_expect(t, p, TokenKind::Keyword(KeywordKind::Auto)) is Ok;
        let p0: int = if is_auto {
            p + 1
        } else {
            p
        };
        let p1 = p0 + 1;
        let p2 = p1 + 1;
        let (cs, p3) = spec_repeated::<StateContent>(t, p2);
        lemma_contents_nodes(t, p2);
        let q = p3 + 1;
        lemma_range_contains(t, p, q, p1, p2);
        if cs.len() > 0 {
            lemma_span_order(t, p, p2);
            lemma_span_order(t, p3 - 1, q - 1);
            assert forall|i: int|
                0 <= i < cs.len() implies span_contains(
                spec_node_range(t, p, q),
                (#[trigger] cs[i]).span,
            ) by {
                assert(spec_offset_at(t, p) <= spec_offset_at(t, p2) <= cs[i].span.start);
                assert(cs[i].span.end <= spec_end_before(t, p3) <= spec_end_before(t, q));
            }
        }
    }
}

/// The keyword token a rendering emits: spans are fresh, so they are empty.
pub open spec fn spec_keyword_token(k: KeywordKind) -> TokenView {
    TokenView {
        kind: TokenKind::Keyword(k),
        text: Seq::empty(),
        span: Span { start: 0, end: 0 },
    }
}

/// The identifier token a rendering emits for `text`.
pub open spec fn spec_identifier_token(text: Seq<char>) -> TokenView {
    TokenView { kind: TokenKind::Identifier, text, span: Span { start: 0, end: 0 } }
}

/// The token rendering of one state content.
pub open spec fn spec_render_content(c: StateContentView) -> Seq<TokenView> {
    match c {
        StateContentView::Event(e) => seq![
            spec_keyword_token(KeywordKind::Event),
            spec_identifier_token(e.name.value),
            spec_keyword_token(KeywordKind::EndEvent),
        ],
        StateContentView::Function(f) => seq![
            spec_keyword_token(KeywordKind::Function),
            spec_identifier_token(f.name.value),
            spec_keyword_token(KeywordKind::EndFunction),
        ],
    }
}

/// The token rendering of a sequence of contents, in order.
pub open spec fn spec_render_contents(cs: Seq<Node<StateContentView>>) -> Seq<TokenView>
    decreases cs.len(),
{
    if cs.len() == 0 {
        Seq::empty()
    } else {
        spec_render_content(cs[0].value) + spec_render_contents(cs.drop_first())
    }
}

/// The token rendering of a whole state block.
pub open spec fn spec_render_state(s: StateView) -> Seq<TokenView> {
    let auto_part: Seq<TokenView> = if s.is_auto {
        seq![spec_keyword_token(KeywordKind::Auto)]
    } else {
        Seq::empty()
    };
    let contents_part: Seq<TokenView> = match s.contents {
        Option::Some(cs) => spec_render_contents(cs),
        Option::None => Seq::empty(),
    };
    auto_part + seq![
        spec_keyword_token(KeywordKind::State),
        spec_identifier_token(s.name.value),
    ] + contents_part + seq![spec_keyword_token(KeywordKind::EndState)]
}

/// Two contents carry the same value, spans aside.
pub open spec fn same_content_value(a: StateContentView, b: StateContentView) -> bool {
    match (a, b) {
        (StateContentView::Event(x), StateContentView::Event(y)) => x.name.value == y.name.value,
        (StateContentView::Function(x), StateContentView::Function(y)) => x.name.value
            == y.name.value,
        _ => false,
    }
}

/// Two states carry the same value, spans aside.
pub open spec fn same_state_value(a: StateView, b: StateView) -> bool {
    &&& a.is_auto == b.is_auto
    &&& a.name.value == b.name.value
    &&& (match (a.contents, b.contents) {
        (Option::None, Option::None) => true,
        (Option::Some(x), Option::Some(y)) => x.len() == y.len() && (forall|i: int|
            0 <= i < x.len() ==> same_content_value((#[trigger] x[i]).value, y[i].value)),
        _ => false,
    })
}

/// A state as the parser builds it: the absent-contents marker is never an
/// empty sequence.
pub open spec fn state_value_wf(s: StateView) -> bool {
    match s.contents {
        Option::Some(cs) => cs.len() > 0,
        Option::None => true,
    }
}

proof fn lemma_render_contents_len(cs: Seq<Node<StateContentView>>)
    ensures
        spec_render_contents(cs).len() == 3 * cs.len(),
    decreases cs.len(),
{
    if cs.len() > 0 {
        lemma_render_contents_len(cs.drop_first());
    }
}

proof fn lemma_contents_round_trip(t: Seq<TokenView>, p: int, cs: Seq<Node<StateContentView>>)
    requires
        0 <= p,
        p + spec_render_contents(cs).len() < t.len(),
        forall|i: int|
            0 <= i < spec_render_contents(cs).len() ==> t[p + i] == spec_render_contents(cs)[i],
        t[p + spec_render_contents(cs).len()].kind == TokenKind::Keyword(KeywordKind::EndState),
    ensures
        ({
            let (s2, fin) = spec_repeated::<StateContent>(t, p);
            &&& fin == p + spec_render_contents(cs).len()
            &&& s2.len() == cs.len()
            &&& (forall|i: int|
                0 <= i < cs.len() ==> same_content_value((#[trigger] s2[i]).value, cs[i].value))
        }),
    decreases cs.len(),
{
    lemma_render_contents_len(cs);
    if cs.len() == 0 {
        assert(t[p].kind == TokenKind::Keyword(KeywordKind::EndState));
        assert(spec_parse_node::<StateContent>(t, p) is Err);
        assert(spec_repeated::<StateContent>(t, p) == (Seq::<Node<StateContentView>>::empty(), p));
    } else {
        let c0 = cs[0].value;
        let rest_cs = cs.drop_first();
        lemma_render_contents_len(rest_cs);
        assert(spec_render_contents(cs) == spec_render_content(c0) + spec_render_contents(rest_cs));
        assert(t[p + 0] == spec_render_contents(cs)[0]);
        assert(t[p + 1] == spec_render_contents(cs)[1]);
        assert(t[p + 2] == spec_render_contents(cs)[2]);
        assert(t[p] == spec_render_content(c0)[0]);
        assert(t[p + 1] == spec_render_content(c0)[1]);
        assert(t[p + 2] == spec_render_content(c0)[2]);
        match c0 {
            StateContentView::Event(e) => {
                assert(t[p].kind == TokenKind::Keyword(KeywordKind::Event));
                assert(t[p + 1].kind == TokenKind::Identifier);
                assert(t[p + 1].text == e.name.value);
                assert(t[p + 2].kind == TokenKind::Keyword(KeywordKind::EndEvent));
                assert(spec_parse_event(t, p) matches Ok((v, q)) && q == p + 3
                    && v.name.value == e.name.value);
            },
            StateContentView::Function(f) => {
                assert(t[p].kind == TokenKind::Keyword(KeywordKind::Function));
                assert(t[p + 1].kind == TokenKind::Identifier);
                assert(t[p + 1].text == f.name.value);
                assert(t[p + 2].kind == TokenKind::Keyword(KeywordKind::EndFunction));
                assert(spec_parse_event(t, p) is Err);
                assert(spec_parse_function(t, p) matches Ok((v, q)) && q == p + 3
                    && v.name.value == f.name.value);
            },
        }
        let n = spec_parse_node::<StateContent>(t, p)->Ok_0.0;
        assert(same_content_value(n.value, c0));
        assert forall|i: int|
            0 <= i < spec_render_contents(rest_cs).len() implies t[p + 3 + i]
            == spec_render_contents(rest_cs)[i] by {
            assert(t[p + 3 + i] == spec_render_contents(cs)[3 + i]);
            assert(spec_render_contents(cs)[3 + i] == spec_render_contents(rest_cs)[i]);
        }
        lemma_contents_round_trip(t, p + 3, rest_cs);
        let (s2, fin) = spec_repeated::<StateContent>(t, p);
        let (rest2, fin2) = spec_repeated::<StateContent>(t, p + 3);
        assert(s2 == seq![n] + rest2);
        assert forall|i: int|
            0 <= i < cs.len() implies same_content_value((#[trigger] s2[i]).value, cs[i].value) by {
            if i == 0 {
                assert(s2[i] == n);
            } else {
                assert(s2[i] == rest2[i - 1]);
                assert(cs[i] == rest_cs[i - 1]);
            }
        }
    }
}

/// Law (round trip): re-parsing the token rendering of any state the parser
/// can have built yields a state of equal value, spans aside, consuming the
/// whole rendering.
pub proof fn lemma_state_round_trip(s: StateView)
    requires
        state_value_wf(s),
    ensures
        (match spec_parse_state(spec_render_state(s), 0) {
            Ok((s2, fin)) => same_state_value(s, s2) && fin == spec_render_state(s).len(),
            Err(_) => false,
        }),
{
    let t = spec_render_state(s);
    let a: int = if s.is_auto {
        1
    } else {
        0
    };
    let cs: Seq<Node<StateContentView>> = match s.contents {
        Option::Some(cs) => cs,
        Option::None => Seq::empty(),
    };
    lemma_render_contents_len(cs);
    let k = cs.len() as int;
    assert(t.len() == a + 2 + 3 * k + 1);
    assert forall|i: int| 0 <= i < t.len() implies t[i] == ({
        if i < a {
            spec_keyword_token(KeywordKind::Auto)
        } else if i == a {
            spec_keyword_token(KeywordKind::State)
        } else if i == a + 1 {
            spec_identifier_token(s.name.value)
        } else if i < a + 2 + 3 * k {
            spec_render_contents(cs)[i - (a + 2)]
        } else {
            spec_keyword_token(KeywordKind::EndState)
        }
    }) by {
    }
    if s.is_auto {
        assert(t[0].kind == TokenKind::Keyword(KeywordKind::Auto));
    } else {
        assert(t[0].kind == TokenKind::Keyword(KeywordKind::State));
    }
    assert((spec_expect(t, 0, TokenKind::Keyword(KeywordKind::Auto)) is Ok) == s.is_auto);
    assert(spec_expect(t, a, TokenKind::Keyword(KeywordKind::State)) == Ok::<int, FailureView>(
        a + 1,
    ));
    assert(t[a + 1].kind == TokenKind::Identifier && t[a + 1].text == s.name.value);
    lemma_contents_round_trip(t, a + 2, cs);
    let (s2, fin) = spec_repeated::<StateContent>(t, a + 2);
    assert(fin == a + 2 + 3 * k);
    assert(t[fin].kind == TokenKind::Keyword(KeywordKind::EndState));
    assert(spec_expect(t, fin, TokenKind::Keyword(KeywordKind::EndState)) == Ok::<
        int,
        FailureView,
    >(t.len() as int));
}

} // verus!


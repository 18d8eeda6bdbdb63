use vstd::prelude::*;

use crate::token::Found;
use crate::token::TokenKind;

verus! {

/// What a failing parse was looking for: one token kind, or one of a named
/// pair of alternatives.
#[derive(Debug, Clone, PartialEq)]
pub enum Expected {
    Kind(TokenKind),
    OneOf { label: String, first: String, second: String },
}

/// The mathematical image of `Expected`.
#[verifier::ext_equal]
pub enum ExpectedView {
    Kind(TokenKind),
    OneOf { label: Seq<char>, first: Seq<char>, second: Seq<char> },
}

impl View for Expected {
    type V = ExpectedView;

    open spec fn view(&self) -> ExpectedView {
        match self {
            Expected::Kind(k) => ExpectedView::Kind(*k),
            Expected::OneOf { label, first, second } => ExpectedView::OneOf {
                label: label@,
                first: first@,
                second: second@,
            },
        }
    }
}

/// A structured parse failure: what was expected, what was actually found,
/// and the byte offset of the mismatch. It carries no partial tree.
#[derive(Debug, Clone, PartialEq)]
pub struct ParseFailure {
    pub expected: Expected,
    pub found: Found,
    pub offset: usize,
}

/// The mathematical image of `ParseFailure`.
#[verifier::ext_equal]
pub struct FailureView {
    pub expected: ExpectedView,
    pub found: Found,
    pub offset: int,
}

impl View for ParseFailure {
    type V = FailureView;

    open spec fn view(&self) -> FailureView {
        FailureView { expected: self.expected@, found: self.found, offset: self.offset as int }
    }
}

} // verus!

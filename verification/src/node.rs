use vstd::prelude::*;

use crate::token::Span;

verus! {

/// A parsed value paired with the half-open byte range it was parsed from.
/// `Node<T>` is also its own view container: the view of a `Node<T>` is a
/// `Node<T::V>` with the same span.
#[derive(Debug, Clone, PartialEq)]
#[verifier::ext_equal]
pub struct Node<T> {
    pub value: T,
    pub span: Span,
}

impl<T: View> View for Node<T> {
    type V = Node<T::V>;

    open spec fn view(&self) -> Node<T::V> {
        Node { value: self.value.view(), span: self.span }
    }
}

impl<T> Node<T> {
    pub fn new(value: T, span: Span) -> (r: Node<T>)
        ensures
            r.value == value,
            r.span == span,
    {
        Node { value, span }
    }
}

} // verus!

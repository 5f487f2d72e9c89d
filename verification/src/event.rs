//! The events of a parsed document, as far as the rewriter reads them.

use vstd::prelude::*;

verus! {

/// One event of a parsed document. The rewriter reads the payload of `Text`
/// events and produces `Html` events; every other kind of event is carried
/// along as a value of `T`, which is never looked into.
#[derive(Debug, Clone, PartialEq, Eq)]
pub enum DocEvent<T> {
    /// A run of text.
    Text(String),
    /// A fragment of markup, written out as it stands.
    Html(String),
    /// Any other event.
    Other(T),
}

/// An [`DocEvent`] as a mathematical value: payloads are character sequences.
pub enum DocEventView<T> {
    /// A run of text.
    Text(Seq<char>),
    /// A fragment of markup, written out as it stands.
    Html(Seq<char>),
    /// Any other event.
    Other(T),
}

impl<T> View for DocEvent<T> {
    type V = DocEventView<T>;

    open spec fn view(&self) -> DocEventView<T> {
        match self {
            DocEvent::Text(payload) => DocEventView::Text(payload@),
            DocEvent::Html(payload) => DocEventView::Html(payload@),
            DocEvent::Other(other) => DocEventView::Other(*other),
        }
    }
}

impl<T> DeepView for DocEvent<T> {
    type V = DocEventView<T>;

    open spec fn deep_view(&self) -> DocEventView<T> {
        self@
    }
}

} // verus!

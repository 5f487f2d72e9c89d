//! Whole documents: markdown text is parsed into events, the events are
//! rewritten, and what comes out is written as markdown text again.

use vstd::prelude::*;
use crate::annotator::EventClassAnnotator;
use crate::event::{DocEvent, DocEventView};
use crate::nesting::{lemma_run_keeps_structure, run_spec, same_structure, NestingError};

verus! {

/// An event of the markdown parser. Nothing of it is read here.
#[verifier::external_type_specification]
#[verifier::external_body]
pub struct ExMarkdownEvent<'a>(pulldown_cmark::Event<'a>);

/// The error of a formatter that could not write.
#[verifier::external_type_specification]
#[verifier::external_body]
pub struct ExFormatError(core::fmt::Error);

/// The events that the markdown parser reads from `text`, text events as
/// [`DocEventView::Text`] and all others as [`DocEventView::Other`].
pub uninterp spec fn markdown_events(text: Seq<char>) -> Seq<
    DocEventView<pulldown_cmark::Event<'static>>,
>;

/// The markdown text that the serializer writes for `events`; `None` where it
/// reports an error.
pub uninterp spec fn markdown_text(events: Seq<DocEventView<pulldown_cmark::Event<'static>>>) -> Option<
    Seq<char>,
>;

/// Calls `mdbook::utils::new_cmark_parser` on `text`, without smart
/// punctuation, and collects the events of the parser it returns. The
/// contract only names what comes back: the same text gives the same events.
#[verifier::external_body]
fn parse_markdown<'a>(text: &'a str) -> (events: Vec<DocEvent<pulldown_cmark::Event<'a>>>)
    ensures
        events.deep_view() == markdown_events(text@),
{
    mdbook::utils::new_cmark_parser(text, false).map(
        |event| match event {
            pulldown_cmark::Event::Text(payload) => DocEvent::Text(payload.into_string()),
            other => DocEvent::Other(other),
        },
    ).collect()
}

/// Calls `pulldown_cmark_to_cmark::cmark` on `events`, writing into a fresh
/// string. The serializer takes for granted that links, images and headings
/// end only after they began, as they do in what the parser yields; so the
/// events must have the structure of a parsed document. The contract names
/// what comes back: the same events give the same text, or an error.
#[verifier::external_body]
fn render_markdown<'a>(events: Vec<DocEvent<pulldown_cmark::Event<'a>>>) -> (text: Result<
    String,
    core::fmt::Error,
>)
    requires
        exists|source: Seq<char>|
            same_structure(events.deep_view(), #[trigger] markdown_events(source)),
    ensures
        match text {
            Ok(written) => markdown_text(events.deep_view()) == Some(written@),
            Err(_) => markdown_text(events.deep_view()) is None,
        },
{
    let mut text = String::new();
    let raw = events.into_iter().map(
        |event| match event {
            DocEvent::Text(payload) => pulldown_cmark::Event::Text(payload.into()),
            DocEvent::Html(payload) => pulldown_cmark::Event::Html(payload.into()),
            DocEvent::Other(other) => other,
        },
    );
    pulldown_cmark_to_cmark::cmark(raw, &mut text).map(|_| text)
}

/// Why a document could not be rewritten.
#[derive(Debug, Clone, Copy, PartialEq, Eq, Structural)]
pub enum BlockyError {
    /// The markers of the document are not properly nested.
    Nesting(NestingError),
    /// The serializer could not write the rewritten events.
    Render,
}

/// The text of a document after rewriting: the document is parsed, its events
/// are run through the rewriter from depth 0, and the events put out are
/// written as text. A run that fails gives its error, and so does a
/// serializer that reports one.
pub open spec fn blocky_spec(content: Seq<char>) -> Result<Seq<char>, BlockyError> {
    match run_spec(0, markdown_events(content)) {
        Err(error) => Err(BlockyError::Nesting(error)),
        Ok(run) => match markdown_text(run.output) {
            Some(text) => Ok(text),
            None => Err(BlockyError::Render),
        },
    }
}

/// Rewrites the block annotations of one document: the text of a chapter
/// goes in, and the text with every marker replaced by its markup comes out.
pub fn blocky(content: &str) -> (result: Result<String, BlockyError>)
    ensures
        match blocky_spec(content@) {
            Ok(text) => result matches Ok(written) && written@ == text,
            Err(error) => result matches Err(e) && e == error,
        },
{
    let incoming_events = parse_markdown(content);
    let new_events = match EventClassAnnotator::new(incoming_events).collect() {
        Ok(events) => events,
        Err(error) => {
            return Err(BlockyError::Nesting(error));
        },
    };
    proof {
        lemma_run_keeps_structure(0, markdown_events(content@));
    }
    match render_markdown(new_events) {
        Ok(text) => Ok(text),
        Err(_) => Err(BlockyError::Render),
    }
}

} // verus!

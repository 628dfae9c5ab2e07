use vstd::prelude::*;

use pulldown_cmark::{CodeBlockKind, Event, Parser, Tag};

verus! {

/// One block-level event of a markdown document, as the extractor needs it.
#[derive(Debug, Clone)]
pub enum MdEvent {
    /// A heading opens; the level runs from 1 to 6.
    HeadingStart(usize),
    HeadingEnd(usize),
    /// A fenced code block opens, with its info string.
    FenceStart(String),
    FenceEnd(String),
    Text(String),
    Other,
}

/// The mathematical value of an [`MdEvent`].
pub enum MdEventView {
    HeadingStart(nat),
    HeadingEnd(nat),
    FenceStart(Seq<char>),
    FenceEnd(Seq<char>),
    Text(Seq<char>),
    Other,
}

impl View for MdEvent {
    type V = MdEventView;

    open spec fn view(&self) -> MdEventView {
        match self {
            MdEvent::HeadingStart(l) => MdEventView::HeadingStart(*l as nat),
            MdEvent::HeadingEnd(l) => MdEventView::HeadingEnd(*l as nat),
            MdEvent::FenceStart(i) => MdEventView::FenceStart(i@),
            MdEvent::FenceEnd(i) => MdEventView::FenceEnd(i@),
            MdEvent::Text(t) => MdEventView::Text(t@),
            MdEvent::Other => MdEventView::Other,
        }
    }
}

/// An event together with the byte offset in the document where it starts.
#[derive(Debug, Clone)]
pub struct ParsedEvent {
    pub event: MdEvent,
    pub offset: usize,
}

impl View for ParsedEvent {
    type V = (MdEventView, nat);

    open spec fn view(&self) -> (MdEventView, nat) {
        (self.event@, self.offset as nat)
    }
}

pub open spec fn events_view(v: Seq<ParsedEvent>) -> Seq<(MdEventView, nat)> {
    v.map_values(|e: ParsedEvent| e@)
}

/// The events that pulldown-cmark's parser yields for a document, with their
/// start offsets.
pub uninterp spec fn markdown_events(text: Seq<char>) -> Seq<(MdEventView, nat)>;

/// Relies on pulldown-cmark's `Parser::into_offset_iter`: the event stream of
/// the document, each event with the start of its source range.
#[verifier::external_body]
pub(crate) fn parse_markdown(s: &str) -> (r: Vec<ParsedEvent>)
    ensures
        events_view(r@) == markdown_events(s@),
{
    Parser::new(s).into_offset_iter().map(|(e, range)| ParsedEvent {
        event: match e {
            Event::Start(Tag::Heading(l, ..)) => MdEvent::HeadingStart(l as usize),
            Event::End(Tag::Heading(l, ..)) => MdEvent::HeadingEnd(l as usize),
            Event::Start(Tag::CodeBlock(CodeBlockKind::Fenced(i))) => MdEvent::FenceStart(i.to_string()),
            Event::End(Tag::CodeBlock(CodeBlockKind::Fenced(i))) => MdEvent::FenceEnd(i.to_string()),
            Event::Text(t) => MdEvent::Text(t.to_string()),
            _ => MdEvent::Other,
        },
        offset: range.start,
    }).collect()
}

/// How many times `b` occurs in `s`.
pub open spec fn occurrences(s: Seq<u8>, b: u8) -> nat
    decreases s.len(),
{
    if s.len() == 0 {
        0
    } else {
        occurrences(s.drop_last(), b) + if s.last() == b { 1nat } else { 0nat }
    }
}

/// Relies on `bytecount::count`: the number of bytes of `haystack` equal to `needle`.
#[verifier::external_body]
pub(crate) fn count_bytes(haystack: &[u8], needle: u8) -> (r: usize)
    ensures
        r == occurrences(haystack@, needle),
{
    bytecount::count(haystack, needle)
}

} // verus!

//! The lexical events that the tree builder consumes, and the tokenizer that
//! produces them from Markdown text.
use crate::markdown::node::{BlockQuoteKind, HeadingLevel};
use std::ops::Range;
use vstd::prelude::*;

verus! {

/// An element that a token opens.
#[derive(Clone, Copy, Debug, PartialEq, Eq, Structural)]
pub enum Element {
    Paragraph,
    Heading { level: HeadingLevel },
    /// A block quote, with its callout kind where it has one.
    BlockQuote(Option<BlockQuoteKind>),
    CodeBlock,
    /// A list; ordered lists carry the number of their first item.
    List(Option<u64>),
    Item,
    /// Any element that the tree has no node for.
    Other,
}

/// An element that a token closes.
#[derive(Clone, Copy, Debug, PartialEq, Eq, Structural)]
pub enum ElementEnd {
    Paragraph,
    Heading,
    BlockQuote,
    CodeBlock,
    List,
    Item,
    /// The end of any element that the tree has no node for.
    Other,
}

/// One lexical event of a Markdown document.
#[derive(Debug, PartialEq)]
pub enum Token {
    /// Start of an element.
    Start(Element),
    /// End of an element.
    End(ElementEnd),
    /// A text node.
    Text(String),
    /// An inline code node.
    Code(String),
    /// A task list marker; `true` when the box is checked.
    TaskListMarker(bool),
    /// Any event that the tree builder ignores.
    Other,
}

/// What a [`Token`] stands for.
pub enum Lexeme {
    Start(Element),
    End(ElementEnd),
    Text(Seq<char>),
    Code(Seq<char>),
    TaskListMarker(bool),
    Other,
}

impl View for Token {
    type V = Lexeme;

    open spec fn view(&self) -> Lexeme {
        match self {
            Token::Start(element) => Lexeme::Start(*element),
            Token::End(end) => Lexeme::End(*end),
            Token::Text(text) => Lexeme::Text(text@),
            Token::Code(text) => Lexeme::Code(text@),
            Token::TaskListMarker(checked) => Lexeme::TaskListMarker(*checked),
            Token::Other => Lexeme::Other,
        }
    }
}

impl Clone for Token {
    fn clone(&self) -> (res: Self)
        ensures
            res@ == self@,
    {
        match self {
            Token::Start(element) => Token::Start(*element),
            Token::End(end) => Token::End(*end),
            Token::Text(text) => Token::Text(text.clone()),
            Token::Code(text) => Token::Code(text.clone()),
            Token::TaskListMarker(checked) => Token::TaskListMarker(*checked),
            Token::Other => Token::Other,
        }
    }
}

/// The lexemes, each with its source range, that a sequence of tokens stands for.
pub open spec fn lexemes(tokens: Seq<(Token, Range<usize>)>) -> Seq<(Lexeme, Range<usize>)> {
    Seq::new(tokens.len(), |i: int| (tokens[i].0@, tokens[i].1))
}

/// `pulldown_cmark::Event`, carried through without a look inside.
#[verifier::external_type_specification]
#[verifier::external_body]
pub struct ExEvent<'a>(pulldown_cmark::Event<'a>);

/// `pulldown_cmark::Tag`, carried through without a look inside.
#[verifier::external_type_specification]
#[verifier::external_body]
pub struct ExTag<'a>(pulldown_cmark::Tag<'a>);

/// `pulldown_cmark::TagEnd`, carried through without a look inside.
#[verifier::external_type_specification]
#[verifier::external_body]
pub struct ExTagEnd(pulldown_cmark::TagEnd);

/// An event of the tokenizer, taken apart one level deep.
enum EventParts<'a> {
    Start(pulldown_cmark::Tag<'a>),
    End(pulldown_cmark::TagEnd),
    Text(String),
    Code(String),
    TaskListMarker(bool),
    Other,
}

/// Tells the variants of `pulldown_cmark::Event` apart and hands out what each
/// holds; the variants without a node in the tree come out as `Other`.
#[verifier::external_body]
fn event_parts<'a>(event: pulldown_cmark::Event<'a>) -> EventParts<'a> {
    match event {
        pulldown_cmark::Event::Start(tag) => EventParts::Start(tag),
        pulldown_cmark::Event::End(tag_end) => EventParts::End(tag_end),
        pulldown_cmark::Event::Text(text) => EventParts::Text(text.to_string()),
        pulldown_cmark::Event::Code(text) => EventParts::Code(text.to_string()),
        pulldown_cmark::Event::TaskListMarker(checked) => EventParts::TaskListMarker(checked),
        _ => EventParts::Other,
    }
}

/// Which variant a tag of the tokenizer is, with the start number of a list.
pub enum TagParts {
    Paragraph,
    Heading,
    BlockQuote,
    CodeBlock,
    List(Option<u64>),
    Item,
    Other,
}

/// Tells the variants of `pulldown_cmark::Tag` apart and hands out the start
/// number of a list; the variants without a node in the tree come out as
/// `Other`.
#[verifier::external_body]
fn tag_parts<'a>(tag: &pulldown_cmark::Tag<'a>) -> TagParts {
    match tag {
        pulldown_cmark::Tag::Paragraph => TagParts::Paragraph,
        pulldown_cmark::Tag::Heading { .. } => TagParts::Heading,
        pulldown_cmark::Tag::BlockQuote(_) => TagParts::BlockQuote,
        pulldown_cmark::Tag::CodeBlock(_) => TagParts::CodeBlock,
        pulldown_cmark::Tag::List(start) => TagParts::List(*start),
        pulldown_cmark::Tag::Item => TagParts::Item,
        _ => TagParts::Other,
    }
}

/// The level of a `pulldown_cmark::Tag::Heading`, one arm for each of the six
/// variants of `pulldown_cmark::HeadingLevel`; `None` for any other tag.
#[verifier::external_body]
fn heading_level<'a>(tag: &pulldown_cmark::Tag<'a>) -> Option<HeadingLevel> {
    match tag {
        pulldown_cmark::Tag::Heading { level: pulldown_cmark::HeadingLevel::H1, .. } => Some(HeadingLevel::H1),
        pulldown_cmark::Tag::Heading { level: pulldown_cmark::HeadingLevel::H2, .. } => Some(HeadingLevel::H2),
        pulldown_cmark::Tag::Heading { level: pulldown_cmark::HeadingLevel::H3, .. } => Some(HeadingLevel::H3),
        pulldown_cmark::Tag::Heading { level: pulldown_cmark::HeadingLevel::H4, .. } => Some(HeadingLevel::H4),
        pulldown_cmark::Tag::Heading { level: pulldown_cmark::HeadingLevel::H5, .. } => Some(HeadingLevel::H5),
        pulldown_cmark::Tag::Heading { level: pulldown_cmark::HeadingLevel::H6, .. } => Some(HeadingLevel::H6),
        _ => None,
    }
}

/// The kind of a `pulldown_cmark::Tag::BlockQuote` that has one, one arm for each
/// of the five variants of `pulldown_cmark::BlockQuoteKind`; `None` for a block
/// quote without a kind and for any other tag.
#[verifier::external_body]
fn block_quote_kind<'a>(tag: &pulldown_cmark::Tag<'a>) -> Option<BlockQuoteKind> {
    match tag {
        pulldown_cmark::Tag::BlockQuote(Some(pulldown_cmark::BlockQuoteKind::Note)) => Some(BlockQuoteKind::Note),
        pulldown_cmark::Tag::BlockQuote(Some(pulldown_cmark::BlockQuoteKind::Tip)) => Some(BlockQuoteKind::Tip),
        pulldown_cmark::Tag::BlockQuote(Some(pulldown_cmark::BlockQuoteKind::Important)) => Some(BlockQuoteKind::Important),
        pulldown_cmark::Tag::BlockQuote(Some(pulldown_cmark::BlockQuoteKind::Warning)) => Some(BlockQuoteKind::Warning),
        pulldown_cmark::Tag::BlockQuote(Some(pulldown_cmark::BlockQuoteKind::Caution)) => Some(BlockQuoteKind::Caution),
        _ => None,
    }
}

/// Tells the variants of `pulldown_cmark::TagEnd` apart; the variants without a
/// node in the tree come out as `Other`.
#[verifier::external_body]
fn element_end(tag_end: pulldown_cmark::TagEnd) -> ElementEnd {
    match tag_end {
        pulldown_cmark::TagEnd::Paragraph => ElementEnd::Paragraph,
        pulldown_cmark::TagEnd::Heading(_) => ElementEnd::Heading,
        pulldown_cmark::TagEnd::BlockQuote(_) => ElementEnd::BlockQuote,
        pulldown_cmark::TagEnd::CodeBlock => ElementEnd::CodeBlock,
        pulldown_cmark::TagEnd::List(_) => ElementEnd::List,
        pulldown_cmark::TagEnd::Item => ElementEnd::Item,
        _ => ElementEnd::Other,
    }
}

/// Turns a tag of the tokenizer into an [`Element`].
fn convert_tag<'a>(tag: &pulldown_cmark::Tag<'a>) -> Element {
    let parts = tag_parts(tag);
    let level = heading_level(tag);
    let kind = block_quote_kind(tag);
    element_of(parts, level, kind)
}

/// The element of a heading tag: a heading of the level that was read from it.
pub open spec fn heading_for(level: Option<HeadingLevel>) -> Element {
    match level {
        Some(level) => Element::Heading { level },
        None => Element::Other,
    }
}

/// Turns an event of the tokenizer into a [`Token`].
fn convert_event<'a>(event: pulldown_cmark::Event<'a>) -> Token {
    match event_parts(event) {
        EventParts::Start(tag) => Token::Start(convert_tag(&tag)),
        EventParts::End(tag_end) => Token::End(element_end(tag_end)),
        EventParts::Text(text) => Token::Text(text),
        EventParts::Code(text) => Token::Code(text),
        EventParts::TaskListMarker(checked) => Token::TaskListMarker(checked),
        EventParts::Other => Token::Other,
    }
}

/// The element that a tag stands for, given which variant it is and the level
/// and the kind that were read from it: the level counts for a heading alone,
/// the kind for a block quote alone.
pub open spec fn element_for(
    parts: TagParts,
    level: Option<HeadingLevel>,
    kind: Option<BlockQuoteKind>,
) -> Element {
    match parts {
        TagParts::Paragraph => Element::Paragraph,
        TagParts::Heading => heading_for(level),
        TagParts::BlockQuote => Element::BlockQuote(kind),
        TagParts::CodeBlock => Element::CodeBlock,
        TagParts::List(start) => Element::List(start),
        TagParts::Item => Element::Item,
        TagParts::Other => Element::Other,
    }
}

/// The element that a tag stands for, from what was read from the tag.
pub fn element_of(
    parts: TagParts,
    level: Option<HeadingLevel>,
    kind: Option<BlockQuoteKind>,
) -> (element: Element)
    ensures
        element == element_for(parts, level, kind),
{
    match parts {
        TagParts::Paragraph => Element::Paragraph,
        TagParts::Heading => match level {
            Some(level) => Element::Heading { level },
            None => Element::Other,
        },
        TagParts::BlockQuote => Element::BlockQuote(kind),
        TagParts::CodeBlock => Element::CodeBlock,
        TagParts::List(start) => Element::List(start),
        TagParts::Item => Element::Item,
        TagParts::Other => Element::Other,
    }
}

/// The events of a Markdown text, in document order, each with the range of
/// source bytes that it covers: what the tokenizer yields for the text with
/// every extension switched on and neighbouring text events merged.
pub uninterp spec fn markdown_lexemes(text: Seq<char>) -> Seq<(Lexeme, Range<usize>)>;

/// Runs `pulldown_cmark::Parser::new_ext` with `Options::all()` on the text,
/// walks its `into_offset_iter` through `TextMergeWithOffset` to the end and
/// converts each event. Tokenizing is a function of the text alone; the contract
/// gives the outcome its name.
#[verifier::external_body]
pub(crate) fn tokenize(text: &str) -> (tokens: Vec<(Token, Range<usize>)>)
    ensures
        lexemes(tokens@) == markdown_lexemes(text@),
{
    pulldown_cmark::TextMergeWithOffset::new(
        pulldown_cmark::Parser::new_ext(text, pulldown_cmark::Options::all()).into_offset_iter(),
    ).map(|(event, range)| (convert_event(event), range)).collect()
}

} // verus!

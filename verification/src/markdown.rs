//! The token source boundary: the library's own event type, and the
//! trusted declarations for the markup parser that produces it.

use vstd::prelude::*;

verus! {

use pulldown_cmark as md;

/// An element that contains other elements.
pub enum ElementTag {
    /// A paragraph.
    Paragraph,
    /// A heading with its level, one to six.
    Heading { level: u8 },
    /// A block quote.
    BlockQuote,
    /// A fenced code block with its language tag, possibly empty.
    CodeBlockFenced { language: Vec<char> },
    /// An indented code block, one without a fence.
    CodeBlockIndented,
    /// A list; ordered when the number of its first item is present.
    List { start: Option<u64> },
    /// One list item.
    Item,
    /// A table.
    Table,
    /// A table head row.
    TableHead,
    /// A table row.
    TableRow,
    /// A table cell.
    TableCell,
    /// Emphasized text.
    Emphasis,
    /// Strong text.
    Strong,
    /// Struck-through text.
    Strikethrough,
    /// A link with its target URL.
    Link { url: Vec<char> },
    /// An image with its target URL.
    Image { url: Vec<char> },
    /// A raw markup block.
    HtmlBlock,
    /// Any element the dialect does not know.
    Other,
}

/// One structural event of a document's token stream.
pub enum Token {
    /// The start of a contained element.
    Start(ElementTag),
    /// The end of the innermost open element; whether it closes a
    /// paragraph is recorded for the bibliography protocol.
    End { paragraph: bool },
    /// A text node.
    Text(Vec<char>),
    /// An inline code node.
    Code(Vec<char>),
    /// A raw markup line at block level.
    Html(Vec<char>),
    /// A raw markup fragment inside a line.
    InlineHtml(Vec<char>),
    /// A soft line break.
    SoftBreak,
    /// A hard line break.
    HardBreak,
    /// A thematic break.
    Rule,
    /// Any event the dialect does not know.
    Other,
}

/// The mathematical value of a `ElementTag`.
pub ghost enum ElementTagV {
    /// A paragraph.
    Paragraph,
    /// A heading with its level.
    Heading { level: u8 },
    /// A block quote.
    BlockQuote,
    /// A fenced code block with its language tag.
    CodeBlockFenced { language: Seq<char> },
    /// An indented code block.
    CodeBlockIndented,
    /// A list.
    List { start: Option<u64> },
    /// One list item.
    Item,
    /// A table.
    Table,
    /// A table head row.
    TableHead,
    /// A table row.
    TableRow,
    /// A table cell.
    TableCell,
    /// Emphasized text.
    Emphasis,
    /// Strong text.
    Strong,
    /// Struck-through text.
    Strikethrough,
    /// A link with its target URL.
    Link { url: Seq<char> },
    /// An image with its target URL.
    Image { url: Seq<char> },
    /// A raw markup block.
    HtmlBlock,
    /// Any element the dialect does not know.
    Other,
}

/// The mathematical value of an `Token`.
pub ghost enum TokenV {
    /// The start of a contained element.
    Start(ElementTagV),
    /// The end of the innermost open element.
    End { paragraph: bool },
    /// A text node.
    Text(Seq<char>),
    /// An inline code node.
    Code(Seq<char>),
    /// A raw markup line at block level.
    Html(Seq<char>),
    /// A raw markup fragment inside a line.
    InlineHtml(Seq<char>),
    /// A soft line break.
    SoftBreak,
    /// A hard line break.
    HardBreak,
    /// A thematic break.
    Rule,
    /// Any event the dialect does not know.
    Other,
}

/// The mathematical value of a `ElementTag`.
pub open spec fn element_tag_view(t: ElementTag) -> ElementTagV {
    match t {
        ElementTag::Paragraph => ElementTagV::Paragraph,
        ElementTag::Heading { level } => ElementTagV::Heading { level },
        ElementTag::BlockQuote => ElementTagV::BlockQuote,
        ElementTag::CodeBlockFenced { language } => ElementTagV::CodeBlockFenced { language: language@ },
        ElementTag::CodeBlockIndented => ElementTagV::CodeBlockIndented,
        ElementTag::List { start } => ElementTagV::List { start },
        ElementTag::Item => ElementTagV::Item,
        ElementTag::Table => ElementTagV::Table,
        ElementTag::TableHead => ElementTagV::TableHead,
        ElementTag::TableRow => ElementTagV::TableRow,
        ElementTag::TableCell => ElementTagV::TableCell,
        ElementTag::Emphasis => ElementTagV::Emphasis,
        ElementTag::Strong => ElementTagV::Strong,
        ElementTag::Strikethrough => ElementTagV::Strikethrough,
        ElementTag::Link { url } => ElementTagV::Link { url: url@ },
        ElementTag::Image { url } => ElementTagV::Image { url: url@ },
        ElementTag::HtmlBlock => ElementTagV::HtmlBlock,
        ElementTag::Other => ElementTagV::Other,
    }
}

/// The mathematical value of an `Token`.
pub open spec fn token_view(e: Token) -> TokenV {
    match e {
        Token::Start(t) => TokenV::Start(element_tag_view(t)),
        Token::End { paragraph } => TokenV::End { paragraph },
        Token::Text(s) => TokenV::Text(s@),
        Token::Code(s) => TokenV::Code(s@),
        Token::Html(s) => TokenV::Html(s@),
        Token::InlineHtml(s) => TokenV::InlineHtml(s@),
        Token::SoftBreak => TokenV::SoftBreak,
        Token::HardBreak => TokenV::HardBreak,
        Token::Rule => TokenV::Rule,
        Token::Other => TokenV::Other,
    }
}

/// The mathematical value of an event sequence.
pub open spec fn tokens_view(v: Seq<Token>) -> Seq<TokenV> {
    v.map_values(|e: Token| token_view(e))
}

/// The event sequence that the token source yields for a document
/// text, after conversion into the library's event type. It is a
/// function of the text alone.
pub uninterp spec fn markdown_events(s: Seq<char>) -> Seq<TokenV>;

#[verifier::external_type_specification]
#[verifier::external_body]
pub struct ExMdEvent<'a>(pulldown_cmark::Event<'a>);

#[verifier::external_type_specification]
#[verifier::external_body]
pub struct ExMdTag<'a>(pulldown_cmark::Tag<'a>);

/// Relies on pulldown_cmark::Parser::new_ext, with tables and
/// strikethrough enabled: parsing is deterministic, so the converted
/// stream is the one `markdown_events` names.
#[verifier::external_body]
pub fn parse_markdown(content: &str) -> (events: Vec<Token>)
    ensures
        tokens_view(events@) == markdown_events(content@),
{
    let mut options = md::Options::empty();
    options.insert(md::Options::ENABLE_TABLES);
    options.insert(md::Options::ENABLE_STRIKETHROUGH);
    let mut out = Vec::new();
    for event in md::Parser::new_ext(content, options) {
        out.push(convert_event(event));
    }
    out
}

/// The conversion table of the token source's events, one arm per
/// variant, moving fields only.
#[verifier::external_body]
fn convert_event(event: md::Event<'_>) -> Token {
    match event {
        md::Event::Start(t) => Token::Start(convert_tag(t)),
        md::Event::End(md::TagEnd::Paragraph) => Token::End { paragraph: true },
        md::Event::End(_) => Token::End { paragraph: false },
        md::Event::Text(s) => Token::Text(s.chars().collect()),
        md::Event::Code(s) => Token::Code(s.chars().collect()),
        md::Event::Html(s) => Token::Html(s.chars().collect()),
        md::Event::InlineHtml(s) => Token::InlineHtml(s.chars().collect()),
        md::Event::SoftBreak => Token::SoftBreak,
        md::Event::HardBreak => Token::HardBreak,
        md::Event::Rule => Token::Rule,
        _ => Token::Other,
    }
}

/// The conversion table of the token source's container tags.
#[verifier::external_body]
fn convert_tag(tag: md::Tag<'_>) -> ElementTag {
    match convert_tag_block(tag) {
        Ok(t) => t,
        Err(rest) => convert_tag_span(rest),
    }
}

/// The block-level half of the tag conversion table.
#[verifier::external_body]
fn convert_tag_block(tag: md::Tag<'_>) -> Result<ElementTag, md::Tag<'_>> {
    match tag {
        md::Tag::Paragraph => Ok(ElementTag::Paragraph),
        md::Tag::Heading { level, .. } => Ok(ElementTag::Heading { level: level as u8 }),
        md::Tag::BlockQuote(_) => Ok(ElementTag::BlockQuote),
        md::Tag::CodeBlock(md::CodeBlockKind::Indented) => Ok(ElementTag::CodeBlockIndented),
        md::Tag::CodeBlock(md::CodeBlockKind::Fenced(l)) => Ok(
            ElementTag::CodeBlockFenced { language: l.chars().collect() },
        ),
        md::Tag::List(start) => Ok(ElementTag::List { start }),
        md::Tag::Item => Ok(ElementTag::Item),
        md::Tag::HtmlBlock => Ok(ElementTag::HtmlBlock),
        t => Err(t),
    }
}

/// The span-level half of the tag conversion table.
#[verifier::external_body]
fn convert_tag_span(tag: md::Tag<'_>) -> ElementTag {
    match tag {
        md::Tag::Table(_) => ElementTag::Table,
        md::Tag::TableHead => ElementTag::TableHead,
        md::Tag::TableRow => ElementTag::TableRow,
        md::Tag::TableCell => ElementTag::TableCell,
        md::Tag::Emphasis => ElementTag::Emphasis,
        md::Tag::Strong => ElementTag::Strong,
        md::Tag::Strikethrough => ElementTag::Strikethrough,
        md::Tag::Link { dest_url, .. } => ElementTag::Link { url: dest_url.chars().collect() },
        md::Tag::Image { dest_url, .. } => ElementTag::Image { url: dest_url.chars().collect() },
        _ => ElementTag::Other,
    }
}

} // verus!

//! The render session: a pushdown recognizer over the document's token
//! stream that emits output markup and collects side results.
//!
//! For each element start a frame is pushed; nested tokens render into
//! the top frame's buffer; the matching end pops the frame and wraps
//! its buffer with the element's markup. No tree is ever built.

use vstd::prelude::*;

verus! {

use crate::markdown::{element_tag_view, token_view, tokens_view, ElementTag, ElementTagV, Token, TokenV};
use crate::templates::{
    bib_views, bibliography_markup, blank_line_markup, citation_markup, codeblock_markup,
    emphasis_markup, figure_markup, bold_markup, linebreak_markup, link_markup,
    list_item_markup, ordered_list_markup, paragraph_markup, quote_markup,
    strikethrough_markup, subheading_markup, table_cell_markup, table_head_markup,
    table_markup, table_row_markup, tag_markup, text_markup, unordered_list_markup,
};
use crate::text::{lower_char, make_id_spec};

/// What went wrong while rendering a document body.
#[derive(Debug)]
pub enum RenderError {
    /// A heading of a level other than two.
    InvalidHeading,
    /// A raw markup block that is not one of the allowed directives.
    InvalidHtml(Vec<char>),
    /// A raw inline markup fragment that is not one of the allowed
    /// directives.
    InvalidInlineHtml(Vec<char>),
    /// A thematic break inside a paragraph.
    NestedRule,
    /// An element end with no matching open element.
    UnexpectedEnd,
    /// A token the dialect does not know.
    UnexpectedToken,
    /// Something other than a reference tag inside the bibliography.
    RefTagExpected,
    /// A bibliography tag that is not shaped like a reference tag.
    RefTagShape,
    /// A reference tag without a well-formed id attribute.
    RefTagInvalid,
    /// A reference tag whose id was never cited.
    UnknownRefId(Vec<char>),
    /// Content in the bibliography where a separator or its end was
    /// expected.
    BibliographyContent,
    /// Content after the bibliography.
    BibliographyNotLast,
    /// A cited key without a matching, correctly numbered bibliography
    /// entry.
    MissingEntry(Vec<char>),
    /// A cited key with more than one bibliography entry.
    DuplicateEntry(Vec<char>),
    /// Document content that is not UTF-8.
    NonUtf8,
}

/// The mathematical value of a `RenderError`.
pub ghost enum RenderErrorV {
    /// A heading of a level other than two.
    InvalidHeading,
    /// A raw markup block that is not an allowed directive.
    InvalidHtml(Seq<char>),
    /// A raw inline markup fragment that is not an allowed directive.
    InvalidInlineHtml(Seq<char>),
    /// A thematic break inside a paragraph.
    NestedRule,
    /// An element end with no matching open element.
    UnexpectedEnd,
    /// A token the dialect does not know.
    UnexpectedToken,
    /// Something other than a reference tag inside the bibliography.
    RefTagExpected,
    /// A bibliography tag that is not shaped like a reference tag.
    RefTagShape,
    /// A reference tag without a well-formed id attribute.
    RefTagInvalid,
    /// A reference tag whose id was never cited.
    UnknownRefId(Seq<char>),
    /// Content in the bibliography where a separator or its end was
    /// expected.
    BibliographyContent,
    /// Content after the bibliography.
    BibliographyNotLast,
    /// A cited key without a matching bibliography entry.
    MissingEntry(Seq<char>),
    /// A cited key with more than one bibliography entry.
    DuplicateEntry(Seq<char>),
    /// Document content that is not UTF-8.
    NonUtf8,
}

/// The mathematical value of a `RenderError`.
pub open spec fn err_view(e: RenderError) -> RenderErrorV {
    match e {
        RenderError::InvalidHeading => RenderErrorV::InvalidHeading,
        RenderError::InvalidHtml(t) => RenderErrorV::InvalidHtml(t@),
        RenderError::InvalidInlineHtml(t) => RenderErrorV::InvalidInlineHtml(t@),
        RenderError::NestedRule => RenderErrorV::NestedRule,
        RenderError::UnexpectedEnd => RenderErrorV::UnexpectedEnd,
        RenderError::UnexpectedToken => RenderErrorV::UnexpectedToken,
        RenderError::RefTagExpected => RenderErrorV::RefTagExpected,
        RenderError::RefTagShape => RenderErrorV::RefTagShape,
        RenderError::RefTagInvalid => RenderErrorV::RefTagInvalid,
        RenderError::UnknownRefId(t) => RenderErrorV::UnknownRefId(t@),
        RenderError::BibliographyContent => RenderErrorV::BibliographyContent,
        RenderError::BibliographyNotLast => RenderErrorV::BibliographyNotLast,
        RenderError::MissingEntry(t) => RenderErrorV::MissingEntry(t@),
        RenderError::DuplicateEntry(t) => RenderErrorV::DuplicateEntry(t@),
        RenderError::NonUtf8 => RenderErrorV::NonUtf8,
    }
}

/// The text a render error describes itself with.
pub open spec fn render_error_message(e: RenderErrorV) -> Seq<char> {
    match e {
        RenderErrorV::InvalidHeading => "Invalid heading. Only ## headings are allowed"@,
        RenderErrorV::InvalidHtml(t) => "Invalid html tag: "@ + t,
        RenderErrorV::InvalidInlineHtml(t) => "Invalid inline html: "@ + t,
        RenderErrorV::NestedRule => "A rule may only stand at the top level"@,
        RenderErrorV::UnexpectedEnd => "Element end without a matching element"@,
        RenderErrorV::UnexpectedToken => "Unsupported construct in document body"@,
        RenderErrorV::RefTagExpected => "Only <ref> tags are allowed in the bibliography"@,
        RenderErrorV::RefTagShape => "Bibliography only accepts <ref> tags"@,
        RenderErrorV::RefTagInvalid => "Invalid <ref> tag in bibliography"@,
        RenderErrorV::UnknownRefId(t) => "Bibliography entry with id '"@ + t
            + "' is never referenced"@,
        RenderErrorV::BibliographyContent => "Bibliography has unexpected content"@,
        RenderErrorV::BibliographyNotLast => "Bibliography is not last element in post"@,
        RenderErrorV::MissingEntry(t) => "Bibliography entry for '"@ + t + "' is missing"@,
        RenderErrorV::DuplicateEntry(t) => "Bibliography has more than one entry for '"@ + t
            + "'"@,
        RenderErrorV::NonUtf8 => "Post content is not utf-8"@,
    }
}

impl RenderError {
    /// A human-readable description of the error, the offending tag or
    /// key embedded.
    pub fn message(&self) -> (r: String)
        ensures
            r@ == render_error_message(err_view(*self)),
    {
        let mut out: Vec<char> = Vec::new();
        match self {
            RenderError::InvalidHeading => crate::text::push_str(
                &mut out,
                "Invalid heading. Only ## headings are allowed",
            ),
            RenderError::InvalidHtml(t) => {
                crate::text::push_str(&mut out, "Invalid html tag: ");
                crate::templates::push_chars(&mut out, t);
            },
            RenderError::InvalidInlineHtml(t) => {
                crate::text::push_str(&mut out, "Invalid inline html: ");
                crate::templates::push_chars(&mut out, t);
            },
            RenderError::NestedRule => crate::text::push_str(
                &mut out,
                "A rule may only stand at the top level",
            ),
            RenderError::UnexpectedEnd => crate::text::push_str(
                &mut out,
                "Element end without a matching element",
            ),
            RenderError::UnexpectedToken => crate::text::push_str(
                &mut out,
                "Unsupported construct in document body",
            ),
            RenderError::RefTagExpected => crate::text::push_str(
                &mut out,
                "Only <ref> tags are allowed in the bibliography",
            ),
            RenderError::RefTagShape => crate::text::push_str(
                &mut out,
                "Bibliography only accepts <ref> tags",
            ),
            RenderError::RefTagInvalid => crate::text::push_str(
                &mut out,
                "Invalid <ref> tag in bibliography",
            ),
            RenderError::UnknownRefId(t) => {
                crate::text::push_str(&mut out, "Bibliography entry with id '");
                crate::templates::push_chars(&mut out, t);
                crate::text::push_str(&mut out, "' is never referenced");
            },
            RenderError::BibliographyContent => crate::text::push_str(
                &mut out,
                "Bibliography has unexpected content",
            ),
            RenderError::BibliographyNotLast => crate::text::push_str(
                &mut out,
                "Bibliography is not last element in post",
            ),
            RenderError::MissingEntry(t) => {
                crate::text::push_str(&mut out, "Bibliography entry for '");
                crate::templates::push_chars(&mut out, t);
                crate::text::push_str(&mut out, "' is missing");
            },
            RenderError::DuplicateEntry(t) => {
                crate::text::push_str(&mut out, "Bibliography has more than one entry for '");
                crate::templates::push_chars(&mut out, t);
                crate::text::push_str(&mut out, "'");
            },
            RenderError::NonUtf8 => crate::text::push_str(
                &mut out,
                "Post content is not utf-8",
            ),
        }
        proof {
            assert(out@ =~= render_error_message(err_view(*self)));
        }
        crate::ext::chars_to_string(&out)
    }
}

/// One document's render session state.
pub struct Renderer {
    /// Whether any code was rendered.
    pub uses_code: bool,
    /// The number the next table receives.
    pub table_cursor: usize,
    /// The number the next figure receives.
    pub figure_cursor: usize,
    /// The current paragraph nesting depth.
    pub p_level: usize,
    /// The pending description set by a title directive, consumed by
    /// the next table or figure.
    pub description: Vec<char>,
    /// The relative paths that resolved to existing files, in order of
    /// first mention, without duplicates.
    pub file_mentions: Vec<Vec<char>>,
    /// The citation keys in order of first citation; the key at index
    /// `i` carries citation number `i + 1`.
    pub references: Vec<Vec<char>>,
    /// The distinct code languages seen, in order of first use.
    pub languages: Vec<Vec<char>>,
}

/// The mathematical value of a render session.
pub ghost struct RendererV {
    /// Whether any code was rendered.
    pub uses_code: bool,
    /// The number the next table receives.
    pub table_cursor: nat,
    /// The number the next figure receives.
    pub figure_cursor: nat,
    /// The current paragraph nesting depth.
    pub p_level: nat,
    /// The pending description.
    pub description: Seq<char>,
    /// The file mentions in order of first mention.
    pub file_mentions: Seq<Seq<char>>,
    /// The citation keys in order of first citation.
    pub references: Seq<Seq<char>>,
    /// The distinct code languages seen.
    pub languages: Seq<Seq<char>>,
}

/// The mathematical value of a render session.
pub open spec fn ren_view(r: Renderer) -> RendererV {
    RendererV {
        uses_code: r.uses_code,
        table_cursor: r.table_cursor as nat,
        figure_cursor: r.figure_cursor as nat,
        p_level: r.p_level as nat,
        description: r.description@,
        file_mentions: crate::templates::views_of(r.file_mentions),
        references: crate::templates::views_of(r.references),
        languages: crate::templates::views_of(r.languages),
    }
}

/// The session state a fresh renderer starts from.
pub open spec fn initial_renderer() -> RendererV {
    RendererV {
        uses_code: false,
        table_cursor: 1,
        figure_cursor: 1,
        p_level: 0,
        description: Seq::empty(),
        file_mentions: Seq::empty(),
        references: Seq::empty(),
        languages: Seq::empty(),
    }
}

/// What one open element is.
pub enum FrameKind {
    /// A paragraph; elided when its content collects to nothing.
    Paragraph,
    /// A level-two heading.
    Heading,
    /// A block quote.
    BlockQuote,
    /// A code block with its resolved language.
    CodeBlock { language: Vec<char> },
    /// An ordered list.
    ListOrdered,
    /// An unordered list.
    ListUnordered,
    /// One list item.
    Item,
    /// A numbered table.
    Table,
    /// A table head row.
    TableHead,
    /// A table row.
    TableRow,
    /// A table cell.
    TableCell,
    /// Emphasized text.
    Emphasis,
    /// Strong text.
    Bold,
    /// Struck-through text.
    Strikethrough,
    /// A link with its URL and whether the target exists on disk.
    Link { url: Vec<char>, on_disk: bool },
    /// An image with its URL and whether the target exists on disk.
    Image { url: Vec<char>, on_disk: bool },
    /// A raw markup block, passed through unchanged.
    HtmlBlock,
    /// The table description directive.
    TableTitle,
    /// The figure description directive.
    FigureTitle,
    /// The citation directive.
    Cite,
    /// One bibliography reference entry with its resolved number.
    RefEntry { id: usize },
}

/// The mathematical value of a `FrameKind`.
pub ghost enum FrameKindV {
    /// A paragraph.
    Paragraph,
    /// A level-two heading.
    Heading,
    /// A block quote.
    BlockQuote,
    /// A code block with its resolved language.
    CodeBlock { language: Seq<char> },
    /// An ordered list.
    ListOrdered,
    /// An unordered list.
    ListUnordered,
    /// One list item.
    Item,
    /// A numbered table.
    Table,
    /// A table head row.
    TableHead,
    /// A table row.
    TableRow,
    /// A table cell.
    TableCell,
    /// Emphasized text.
    Emphasis,
    /// Strong text.
    Bold,
    /// Struck-through text.
    Strikethrough,
    /// A link.
    Link { url: Seq<char>, on_disk: bool },
    /// An image.
    Image { url: Seq<char>, on_disk: bool },
    /// A raw markup block.
    HtmlBlock,
    /// The table description directive.
    TableTitle,
    /// The figure description directive.
    FigureTitle,
    /// The citation directive.
    Cite,
    /// One bibliography reference entry.
    RefEntry { id: usize },
}

/// The mathematical value of a `FrameKind`.
pub open spec fn kind_view(k: FrameKind) -> FrameKindV {
    match k {
        FrameKind::Paragraph => FrameKindV::Paragraph,
        FrameKind::Heading => FrameKindV::Heading,
        FrameKind::BlockQuote => FrameKindV::BlockQuote,
        FrameKind::CodeBlock { language } => FrameKindV::CodeBlock { language: language@ },
        FrameKind::ListOrdered => FrameKindV::ListOrdered,
        FrameKind::ListUnordered => FrameKindV::ListUnordered,
        FrameKind::Item => FrameKindV::Item,
        FrameKind::Table => FrameKindV::Table,
        FrameKind::TableHead => FrameKindV::TableHead,
        FrameKind::TableRow => FrameKindV::TableRow,
        FrameKind::TableCell => FrameKindV::TableCell,
        FrameKind::Emphasis => FrameKindV::Emphasis,
        FrameKind::Bold => FrameKindV::Bold,
        FrameKind::Strikethrough => FrameKindV::Strikethrough,
        FrameKind::Link { url, on_disk } => FrameKindV::Link { url: url@, on_disk },
        FrameKind::Image { url, on_disk } => FrameKindV::Image { url: url@, on_disk },
        FrameKind::HtmlBlock => FrameKindV::HtmlBlock,
        FrameKind::TableTitle => FrameKindV::TableTitle,
        FrameKind::FigureTitle => FrameKindV::FigureTitle,
        FrameKind::Cite => FrameKindV::Cite,
        FrameKind::RefEntry { id } => FrameKindV::RefEntry { id },
    }
}

/// One open element and the markup collected inside it so far.
pub struct Frame {
    /// What the element is.
    pub kind: FrameKind,
    /// The markup collected inside it.
    pub buf: Vec<char>,
}

/// The mathematical value of a `Frame`.
pub ghost struct FrameV {
    /// What the element is.
    pub kind: FrameKindV,
    /// The markup collected inside it.
    pub buf: Seq<char>,
}

/// The mathematical value of a `Frame`.
pub open spec fn frame_view(f: Frame) -> FrameV {
    FrameV { kind: kind_view(f.kind), buf: f.buf@ }
}

/// The mathematical value of the frame stack.
pub open spec fn stack_view(s: Seq<Frame>) -> Seq<FrameV> {
    s.map_values(|f: Frame| frame_view(f))
}

/// Whether a frame is one of the directive frames, which close on a
/// raw-markup end tag rather than an element end.
pub open spec fn is_directive(k: FrameKindV) -> bool {
    k is TableTitle || k is FigureTitle || k is Cite || k is RefEntry
}

/// Where the session stands with respect to the bibliography protocol.
#[derive(Clone, Copy, Debug, PartialEq, Eq, Structural)]
pub enum BibMode {
    /// No rule was seen yet.
    Inactive,
    /// A rule was seen; the bibliography paragraph must follow.
    ExpectParagraph,
    /// A reference tag must follow.
    ExpectRef,
    /// A reference entry's content is being collected.
    Collecting,
    /// A reference entry just closed; a separator or the paragraph end
    /// must follow.
    AfterRef,
    /// The bibliography paragraph closed; nothing may follow.
    Done,
}

/// The number of paragraph frames on the stack.
pub open spec fn count_paras(s: Seq<FrameV>) -> nat
    decreases s.len(),
{
    if s.len() == 0 {
        0
    } else {
        count_paras(s.drop_last()) + (if s.last().kind is Paragraph {
            1nat
        } else {
            0nat
        })
    }
}

/// A sequence extended by an element unless it is already present.
pub open spec fn add_distinct(xs: Seq<Seq<char>>, x: Seq<char>) -> Seq<Seq<char>> {
    if xs.contains(x) {
        xs
    } else {
        xs.push(x)
    }
}

/// The index of the first occurrence of `x`, or the length if `x` does
/// not occur.
pub open spec fn key_index(xs: Seq<Seq<char>>, x: Seq<char>) -> int
    decreases xs.len(),
{
    if xs.len() == 0 {
        0
    } else if xs[0] == x {
        0
    } else {
        1 + key_index(xs.drop_first(), x)
    }
}

/// Whether a character separates citation tokens.
pub open spec fn is_cite_sep(c: char) -> bool {
    c == ',' || c == ' '
}

/// The end of the citation token starting at `i`.
pub open spec fn cite_token_end(s: Seq<char>, i: int) -> int
    decreases s.len() - i,
{
    if i < 0 || i >= s.len() || is_cite_sep(s[i]) {
        i
    } else {
        cite_token_end(s, i + 1)
    }
}

/// The citation tokens of a directive's content: the maximal non-empty
/// runs between commas and spaces, in order.
pub open spec fn cite_tokens_from(s: Seq<char>, i: int) -> Seq<Seq<char>>
    decreases s.len() - i,
{
    if i < 0 || i >= s.len() {
        Seq::empty()
    } else if is_cite_sep(s[i]) {
        cite_tokens_from(s, i + 1)
    } else {
        let e = cite_token_end(s, i + 1);
        // The clamp changes nothing: the token end lies within the text.
        let stop = if i + 1 <= e <= s.len() {
            e
        } else {
            i + 1
        };
        seq![s.subrange(i, stop)] + cite_tokens_from(s, stop)
    }
}

/// The citation tokens of a directive's content.
pub open spec fn cite_tokens(s: Seq<char>) -> Seq<Seq<char>> {
    cite_tokens_from(s, 0)
}

/// Folds citation tokens into the key table: a known key resolves to
/// its number, an unknown key is appended and receives the next one.
pub open spec fn resolve_cites(refs: Seq<Seq<char>>, toks: Seq<Seq<char>>) -> (Seq<usize>, Seq<
    Seq<char>,
>)
    decreases toks.len(),
{
    if toks.len() == 0 {
        (Seq::empty(), refs)
    } else {
        let t = toks[0];
        let i = key_index(refs, t);
        let refs2 = if i < refs.len() {
            refs
        } else {
            refs.push(t)
        };
        let id = (i + 1) as usize;
        let (ids, refs3) = resolve_cites(refs2, toks.drop_first());
        (seq![id] + ids, refs3)
    }
}

/// Whether a character counts as surrounding whitespace of a raw tag.
pub open spec fn is_tag_ws(c: char) -> bool {
    c == ' ' || c == '\t' || c == '\n' || c == '\r'
}

/// A character sequence with surrounding tag whitespace removed.
pub open spec fn trim_tag(s: Seq<char>) -> Seq<char>
    decreases s.len(),
{
    if s.len() > 0 && is_tag_ws(s[0]) {
        trim_tag(s.drop_first())
    } else if s.len() > 0 && is_tag_ws(s.last()) {
        trim_tag(s.drop_last())
    } else {
        s
    }
}

/// A character sequence with surrounding spaces removed.
pub open spec fn trim_spaces_chars(s: Seq<char>) -> Seq<char>
    decreases s.len(),
{
    if s.len() > 0 && s[0] == ' ' {
        trim_spaces_chars(s.drop_first())
    } else if s.len() > 0 && s.last() == ' ' {
        trim_spaces_chars(s.drop_last())
    } else {
        s
    }
}

/// The index of the first occurrence of `c`, or the length if `c` does
/// not occur.
pub open spec fn char_index(s: Seq<char>, c: char) -> int
    decreases s.len(),
{
    if s.len() == 0 {
        0
    } else if s[0] == c {
        0
    } else {
        1 + char_index(s.drop_first(), c)
    }
}

/// A character sequence with each ASCII upper-case letter lowered.
pub open spec fn lower_seq(s: Seq<char>) -> Seq<char> {
    s.map_values(|c: char| lower_char(c))
}

/// The whole pushdown machine: session state, open frames, the
/// bibliography progress, and the markup collected at the top level.
pub ghost struct MachineV {
    /// The session state.
    pub ren: RendererV,
    /// The open frames, outermost first.
    pub stack: Seq<FrameV>,
    /// Where the bibliography protocol stands.
    pub mode: BibMode,
    /// The collected bibliography entries, in order of appearance.
    pub bib: Seq<(usize, Seq<char>)>,
    /// The markup collected at the top level.
    pub out: Seq<char>,
}

/// The machine a body render starts from.
pub open spec fn initial_machine(r: RendererV) -> MachineV {
    MachineV {
        ren: r,
        stack: Seq::empty(),
        mode: BibMode::Inactive,
        bib: Seq::empty(),
        out: Seq::empty(),
    }
}

/// Appends markup to the innermost open frame, or to the top-level
/// output when no frame is open.
pub open spec fn emit(m: MachineV, s: Seq<char>) -> MachineV {
    if m.stack.len() == 0 {
        MachineV { out: m.out + s, ..m }
    } else {
        let i = m.stack.len() - 1;
        MachineV {
            stack: m.stack.update(i, FrameV { kind: m.stack[i].kind, buf: m.stack[i].buf + s }),
            ..m
        }
    }
}

/// Opens a new frame.
pub open spec fn push_frame(m: MachineV, k: FrameKindV) -> MachineV {
    MachineV { stack: m.stack.push(FrameV { kind: k, buf: Seq::empty() }), ..m }
}

/// Completes a popped frame against the machine that remains: wraps
/// its collected content with the element's markup and applies the
/// element's effect on the session state.
pub open spec fn complete_frame(m: MachineV, f: FrameV) -> MachineV {
    match f.kind {
        FrameKindV::Paragraph => {
            let m2 = if f.buf.len() == 0 {
                m
            } else {
                emit(m, paragraph_markup(f.buf))
            };
            MachineV {
                ren: RendererV { p_level: (m2.ren.p_level - 1) as nat, ..m2.ren },
                ..m2
            }
        },
        FrameKindV::Heading => emit(m, subheading_markup(make_id_spec(f.buf), f.buf)),
        FrameKindV::BlockQuote => emit(m, quote_markup(f.buf)),
        FrameKindV::CodeBlock { language } => {
            let m2 = emit(m, codeblock_markup(language, f.buf));
            MachineV {
                ren: RendererV {
                    uses_code: true,
                    languages: add_distinct(m2.ren.languages, language),
                    ..m2.ren
                },
                ..m2
            }
        },
        FrameKindV::ListOrdered => emit(m, ordered_list_markup(f.buf)),
        FrameKindV::ListUnordered => emit(m, unordered_list_markup(f.buf)),
        FrameKindV::Item => emit(m, list_item_markup(f.buf)),
        FrameKindV::Table => {
            let m2 = emit(m, table_markup(m.ren.table_cursor, f.buf, m.ren.description));
            MachineV {
                ren: RendererV {
                    table_cursor: m2.ren.table_cursor + 1,
                    description: Seq::empty(),
                    ..m2.ren
                },
                ..m2
            }
        },
        FrameKindV::TableHead => emit(m, table_head_markup(f.buf)),
        FrameKindV::TableRow => emit(m, table_row_markup(f.buf)),
        FrameKindV::TableCell => emit(m, table_cell_markup(f.buf)),
        FrameKindV::Emphasis => emit(m, emphasis_markup(f.buf)),
        FrameKindV::Bold => emit(m, bold_markup(f.buf)),
        FrameKindV::Strikethrough => emit(m, strikethrough_markup(f.buf)),
        FrameKindV::Link { url, on_disk } => {
            let m2 = emit(m, link_markup(url, f.buf));
            if on_disk {
                MachineV {
                    ren: RendererV {
                        file_mentions: add_distinct(m2.ren.file_mentions, url),
                        ..m2.ren
                    },
                    ..m2
                }
            } else {
                m2
            }
        },
        FrameKindV::Image { url, on_disk } => {
            let shown = if on_disk && crate::transformer::is_image_spec(url) {
                crate::transformer::image_filename_spec(url)
            } else {
                url
            };
            let m2 = emit(
                m,
                figure_markup(m.ren.figure_cursor, shown, m.ren.description, m.ren.p_level > 0),
            );
            let m3 = MachineV {
                ren: RendererV {
                    figure_cursor: m2.ren.figure_cursor + 1,
                    description: Seq::empty(),
                    ..m2.ren
                },
                ..m2
            };
            if on_disk {
                MachineV {
                    ren: RendererV {
                        file_mentions: add_distinct(m3.ren.file_mentions, url),
                        ..m3.ren
                    },
                    ..m3
                }
            } else {
                m3
            }
        },
        FrameKindV::HtmlBlock => emit(m, f.buf),
        FrameKindV::TableTitle => MachineV {
            ren: RendererV { description: f.buf, ..m.ren },
            ..m
        },
        FrameKindV::FigureTitle => MachineV {
            ren: RendererV { description: f.buf, ..m.ren },
            ..m
        },
        FrameKindV::Cite => {
            let toks = cite_tokens(f.buf);
            let r = resolve_cites(m.ren.references, toks);
            let m2 = MachineV { ren: RendererV { references: r.1, ..m.ren }, ..m };
            emit(m2, citation_markup(r.0))
        },
        FrameKindV::RefEntry { id } => MachineV {
            bib: m.bib.push((id, f.buf)),
            mode: BibMode::AfterRef,
            ..m
        },
    }
}

/// Splits a character sequence at the first occurrence of `c`.
pub open spec fn split_once_chars(s: Seq<char>, c: char) -> (Seq<char>, Seq<char>) {
    let i = char_index(s, c);
    (
        s.subrange(0, if i <= s.len() { i } else { s.len() as int }),
        if i < s.len() {
            s.subrange(i + 1, s.len() as int)
        } else {
            Seq::empty()
        },
    )
}

/// The parse of a bibliography reference tag `<ref id="KEY">`: the id
/// must name a cited key, whose number is the result.
pub open spec fn parse_ref_tag(refs: Seq<Seq<char>>, t: Seq<char>) -> Result<
    usize,
    RenderErrorV,
> {
    if !(t.len() >= 5 && t.subrange(0, 5) == "<ref "@ && t.last() == '>') {
        Err(RenderErrorV::RefTagShape)
    } else {
        let rest = trim_spaces_chars(t.subrange(4, t.len() as int));
        let kv = split_once_chars(rest, '"');
        if kv.0 != "id="@ {
            Err(RenderErrorV::RefTagInvalid)
        } else {
            let idp = split_once_chars(kv.1, '"');
            let id = trim_spaces_chars(idp.0);
            let i = key_index(refs, id);
            if i < refs.len() {
                Ok((i + 1) as usize)
            } else {
                Err(RenderErrorV::UnknownRefId(id))
            }
        }
    }
}

/// Whether a raw-markup token closes the given directive frame. The
/// comparison is exact, with no surrounding whitespace allowed.
pub open spec fn directive_end_matches(k: FrameKindV, t: Seq<char>) -> bool {
    match k {
        FrameKindV::TableTitle => t == "</table-title>"@,
        FrameKindV::FigureTitle => t == "</figure-title>"@,
        FrameKindV::Cite => t == "</cite>"@,
        FrameKindV::RefEntry { id } => t == "</ref>"@,
        _ => false,
    }
}

/// The step taken for an element start outside the bibliography.
pub open spec fn step_start(m: MachineV, tag: ElementTagV, ex: bool) -> Result<
    MachineV,
    RenderErrorV,
> {
    match tag {
        ElementTagV::Paragraph => {
            let m2 = push_frame(m, FrameKindV::Paragraph);
            Ok(MachineV { ren: RendererV { p_level: m2.ren.p_level + 1, ..m2.ren }, ..m2 })
        },
        ElementTagV::Heading { level } => {
            if level != 2 {
                Err(RenderErrorV::InvalidHeading)
            } else {
                Ok(push_frame(m, FrameKindV::Heading))
            }
        },
        ElementTagV::BlockQuote => Ok(push_frame(m, FrameKindV::BlockQuote)),
        ElementTagV::CodeBlockFenced { language } => {
            let lang = if language.len() == 0 {
                "plaintext"@
            } else {
                lower_seq(language)
            };
            Ok(push_frame(m, FrameKindV::CodeBlock { language: lang }))
        },
        // An indented code block has no language fence; it is treated
        // as plain text, the same as an empty fence.
        ElementTagV::CodeBlockIndented => Ok(
            push_frame(m, FrameKindV::CodeBlock { language: "plaintext"@ }),
        ),
        ElementTagV::List { start } => {
            if start is Some {
                Ok(push_frame(m, FrameKindV::ListOrdered))
            } else {
                Ok(push_frame(m, FrameKindV::ListUnordered))
            }
        },
        ElementTagV::Item => Ok(push_frame(m, FrameKindV::Item)),
        ElementTagV::Table => Ok(push_frame(m, FrameKindV::Table)),
        ElementTagV::TableHead => Ok(push_frame(m, FrameKindV::TableHead)),
        ElementTagV::TableRow => Ok(push_frame(m, FrameKindV::TableRow)),
        ElementTagV::TableCell => Ok(push_frame(m, FrameKindV::TableCell)),
        ElementTagV::Emphasis => Ok(push_frame(m, FrameKindV::Emphasis)),
        ElementTagV::Strong => Ok(push_frame(m, FrameKindV::Bold)),
        ElementTagV::Strikethrough => Ok(push_frame(m, FrameKindV::Strikethrough)),
        ElementTagV::Link { url } => Ok(push_frame(m, FrameKindV::Link { url, on_disk: ex })),
        ElementTagV::Image { url } => Ok(
            push_frame(m, FrameKindV::Image { url, on_disk: ex }),
        ),
        ElementTagV::HtmlBlock => Ok(push_frame(m, FrameKindV::HtmlBlock)),
        ElementTagV::Other => Err(RenderErrorV::UnexpectedToken),
    }
}

/// The step taken for a raw-markup token outside the bibliography:
/// either it closes the innermost directive, or it is one of the
/// whitelisted directives, or it is an error naming the tag.
pub open spec fn step_html(m: MachineV, t: Seq<char>, inline: bool) -> Result<
    MachineV,
    RenderErrorV,
> {
    if m.stack.len() > 0 && directive_end_matches(m.stack.last().kind, t) {
        Ok(complete_frame(MachineV { stack: m.stack.drop_last(), ..m }, m.stack.last()))
    } else {
        let tt = trim_tag(t);
        if tt == "<table-title>"@ {
            Ok(push_frame(m, FrameKindV::TableTitle))
        } else if tt == "<figure-title>"@ {
            Ok(push_frame(m, FrameKindV::FigureTitle))
        } else if tt == "<cite>"@ {
            Ok(push_frame(m, FrameKindV::Cite))
        } else if tt == "<blank-line>"@ || tt == "<blank-line/>"@ {
            Ok(emit(m, blank_line_markup()))
        } else if inline {
            Err(RenderErrorV::InvalidInlineHtml(t))
        } else {
            Err(RenderErrorV::InvalidHtml(t))
        }
    }
}

/// The step taken for one token outside the bibliography modes.
pub open spec fn step_normal(m: MachineV, e: TokenV, ex: bool) -> Result<
    MachineV,
    RenderErrorV,
> {
    match e {
        TokenV::Start(tag) => step_start(m, tag, ex),
        TokenV::End { paragraph } => {
            if m.stack.len() == 0 {
                Err(RenderErrorV::UnexpectedEnd)
            } else if is_directive(m.stack.last().kind) {
                Err(RenderErrorV::UnexpectedEnd)
            } else {
                Ok(complete_frame(MachineV { stack: m.stack.drop_last(), ..m }, m.stack.last()))
            }
        },
        TokenV::Text(t) => Ok(emit(m, text_markup(t))),
        TokenV::Code(c) => {
            let m2 = emit(m, tag_markup(c));
            Ok(MachineV { ren: RendererV { uses_code: true, ..m2.ren }, ..m2 })
        },
        TokenV::Html(t) => step_html(m, t, false),
        TokenV::InlineHtml(t) => step_html(m, t, true),
        TokenV::SoftBreak => Ok(emit(m, " "@)),
        TokenV::HardBreak => Ok(emit(m, linebreak_markup())),
        TokenV::Rule => {
            if m.mode is Collecting {
                Err(RenderErrorV::BibliographyContent)
            } else if m.ren.p_level != 0 {
                Err(RenderErrorV::NestedRule)
            } else {
                Ok(MachineV { mode: BibMode::ExpectParagraph, ..m })
            }
        },
        TokenV::Other => Err(RenderErrorV::UnexpectedToken),
    }
}

/// The step the machine takes for one token, with `ex` recording
/// whether a link or image target of this token exists on disk.
pub open spec fn spec_step(m: MachineV, e: TokenV, ex: bool) -> Result<
    MachineV,
    RenderErrorV,
> {
    match m.mode {
        BibMode::Done => Err(RenderErrorV::BibliographyNotLast),
        BibMode::ExpectParagraph => {
            if e == TokenV::Start(ElementTagV::Paragraph) {
                Ok(MachineV { mode: BibMode::ExpectRef, ..m })
            } else {
                Err(RenderErrorV::BibliographyContent)
            }
        },
        BibMode::ExpectRef => match e {
            TokenV::Html(t) => spec_step_ref(m, t),
            TokenV::InlineHtml(t) => spec_step_ref(m, t),
            _ => Err(RenderErrorV::RefTagExpected),
        },
        BibMode::AfterRef => match e {
            TokenV::End { paragraph } => {
                if paragraph {
                    Ok(MachineV { mode: BibMode::Done, ..m })
                } else {
                    Err(RenderErrorV::BibliographyContent)
                }
            },
            TokenV::SoftBreak => Ok(MachineV { mode: BibMode::ExpectRef, ..m }),
            _ => Err(RenderErrorV::BibliographyContent),
        },
        BibMode::Inactive => step_normal(m, e, ex),
        BibMode::Collecting => step_normal(m, e, ex),
    }
}

/// The step taken for the tag that opens a bibliography entry.
pub open spec fn spec_step_ref(m: MachineV, t: Seq<char>) -> Result<MachineV, RenderErrorV> {
    match parse_ref_tag(m.ren.references, t) {
        Ok(id) => Ok(
            MachineV {
                mode: BibMode::Collecting,
                stack: m.stack.push(FrameV { kind: FrameKindV::RefEntry { id }, buf: Seq::empty() }),
                ..m
            },
        ),
        Err(err) => Err(err),
    }
}

/// A bibliography sequence with one entry inserted behind all entries
/// of smaller or equal number.
pub open spec fn insert_by_id(s: Seq<(usize, Seq<char>)>, x: (usize, Seq<char>)) -> Seq<(
    usize,
    Seq<char>,
)>
    decreases s.len(),
{
    if s.len() == 0 {
        seq![x]
    } else if x.0 < s.last().0 {
        insert_by_id(s.drop_last(), x).push(s.last())
    } else {
        s.push(x)
    }
}

/// The bibliography entries sorted by number, entries of equal number
/// keeping their order.
pub open spec fn sort_by_id(s: Seq<(usize, Seq<char>)>) -> Seq<(usize, Seq<char>)>
    decreases s.len(),
{
    if s.len() == 0 {
        Seq::empty()
    } else {
        insert_by_id(sort_by_id(s.drop_last()), s.last())
    }
}

/// The first citation key, in order of first citation, whose entry is
/// missing from the sorted bibliography or carries the wrong number.
pub open spec fn first_missing(
    refs: Seq<Seq<char>>,
    bib: Seq<(usize, Seq<char>)>,
    i: int,
) -> Option<int>
    decreases refs.len() - i,
{
    if i < 0 || i >= refs.len() {
        None
    } else if i < bib.len() && bib[i].0 == i + 1 {
        first_missing(refs, bib, i + 1)
    } else {
        Some(i)
    }
}

/// The machine with all remaining frames completed, innermost first,
/// as happens when the token stream ends.
pub open spec fn unwind(m: MachineV, k: nat) -> MachineV
    decreases k,
{
    if k == 0 || m.stack.len() == 0 {
        m
    } else {
        unwind(
            complete_frame(MachineV { stack: m.stack.drop_last(), ..m }, m.stack.last()),
            (k - 1) as nat,
        )
    }
}

/// The error when the stream ends inside an open bibliography: the
/// first cited key whose entry is missing, else the structural fault.
pub open spec fn unfinished_bibliography(m: MachineV, fallback: RenderErrorV) -> Result<
    (RendererV, Seq<char>),
    RenderErrorV,
> {
    match first_missing(m.ren.references, sort_by_id(m.bib), 0) {
        Some(i) => Err(RenderErrorV::MissingEntry(m.ren.references[i])),
        None => Err(fallback),
    }
}

/// What the machine yields when the token stream ends: open frames
/// complete as if closed; a document that cited keys but holds no
/// bibliography, or an open bibliography, fails naming the first
/// unresolved key; a closed bibliography must match the citation
/// table one entry per key, correctly numbered, and is rendered last.
pub open spec fn finalize(m: MachineV) -> Result<(RendererV, Seq<char>), RenderErrorV> {
    match m.mode {
        BibMode::ExpectParagraph => unfinished_bibliography(m, RenderErrorV::BibliographyContent),
        BibMode::ExpectRef => unfinished_bibliography(m, RenderErrorV::RefTagExpected),
        BibMode::Collecting => unfinished_bibliography(m, RenderErrorV::RefTagExpected),
        BibMode::AfterRef => unfinished_bibliography(m, RenderErrorV::BibliographyContent),
        BibMode::Inactive => {
            if m.ren.references.len() > 0 {
                Err(RenderErrorV::MissingEntry(m.ren.references[0]))
            } else {
                let m2 = unwind(m, m.stack.len());
                Ok((m2.ren, m2.out))
            }
        },
        BibMode::Done => {
            let sorted = sort_by_id(m.bib);
            match first_missing(m.ren.references, sorted, 0) {
                Some(i) => Err(RenderErrorV::MissingEntry(m.ren.references[i])),
                None => {
                    if sorted.len() > m.ren.references.len() {
                        let d = sorted[m.ren.references.len() as int].0;
                        if 1 <= d <= m.ren.references.len() {
                            Err(RenderErrorV::DuplicateEntry(m.ren.references[d - 1]))
                        } else {
                            Err(RenderErrorV::BibliographyContent)
                        }
                    } else {
                        let m2 = emit(m, bibliography_markup(sorted));
                        let m3 = unwind(m2, m2.stack.len());
                        Ok((m3.ren, m3.out))
                    }
                },
            }
        },
    }
}

/// The machine run over the tokens from position `i` on.
pub open spec fn spec_run_from(
    m: MachineV,
    toks: Seq<TokenV>,
    ex: Seq<bool>,
    i: int,
) -> Result<MachineV, RenderErrorV>
    decreases toks.len() - i,
{
    if i < 0 || i >= toks.len() {
        Ok(m)
    } else {
        match spec_step(m, toks[i], if i < ex.len() { ex[i] } else { false }) {
            Err(e) => Err(e),
            Ok(m2) => spec_run_from(m2, toks, ex, i + 1),
        }
    }
}

/// What rendering a token stream returns and what it leaves the
/// session in: the machine folded over the tokens, then finalized.
pub open spec fn spec_render(r: RendererV, toks: Seq<TokenV>, ex: Seq<bool>) -> Result<
    (RendererV, Seq<char>),
    RenderErrorV,
> {
    match spec_run_from(initial_machine(r), toks, ex, 0) {
        Err(e) => Err(e),
        Ok(m) => finalize(m),
    }
}

/// A fresh copy of a character buffer.
fn clone_chars(v: &Vec<char>) -> (r: Vec<char>)
    ensures
        r@ == v@,
{
    let mut out: Vec<char> = Vec::new();
    crate::templates::push_chars(&mut out, v);
    out
}

/// Whether two character buffers hold the same characters.
fn chars_equal(a: &Vec<char>, b: &Vec<char>) -> (r: bool)
    ensures
        r == (a@ == b@),
{
    if a.len() != b.len() {
        return false;
    }
    let mut i: usize = 0;

    while i < a.len()
        invariant
            i <= a@.len(),
            a@.len() == b@.len(),
            forall|j: int| 0 <= j < i ==> a@[j] == b@[j],
        decreases a.len() - i,
    {
        if a[i] != b[i] {
            return false;
        }
        i += 1;
    }

    proof {
        assert(a@ =~= b@);
    }
    true
}

/// Whether a character buffer holds exactly the text of `s`.
fn chars_is_lit(v: &Vec<char>, s: &str) -> (r: bool)
    ensures
        r == (v@ == s@),
{
    let n = s.unicode_len();
    if v.len() != n {
        return false;
    }
    let mut i: usize = 0;

    while i < n
        invariant
            i <= n,
            n == s@.len(),
            n == v@.len(),
            forall|j: int| 0 <= j < i ==> v@[j] == s@[j],
        decreases n - i,
    {
        if v[i] != s.get_char(i) {
            return false;
        }
        i += 1;
    }

    proof {
        assert(v@ =~= s@);
    }
    true
}

/// Whether a character counts as surrounding tag whitespace.
fn tag_ws(c: char) -> (r: bool)
    ensures
        r == is_tag_ws(c),
{
    c == ' ' || c == '\t' || c == '\n' || c == '\r'
}

/// The region of a buffer that remains after trimming surrounding tag
/// whitespace lies between fully trimmed bounds.
proof fn lemma_trim_tag_at(s: Seq<char>, a: int, b: int)
    requires
        0 <= a <= b <= s.len(),
        forall|i: int| 0 <= i < a ==> is_tag_ws(s[i]),
        forall|i: int| b <= i < s.len() ==> is_tag_ws(s[i]),
        a == b || (!is_tag_ws(s[a]) && !is_tag_ws(s[b - 1])),
    ensures
        trim_tag(s) == s.subrange(a, b),
    decreases s.len(),
{
    if s.len() == 0 {
        assert(s.subrange(0, 0) =~= s);
    } else if is_tag_ws(s[0]) {
        if a == b {
            assert(forall|i: int| 0 <= i < s.len() ==> is_tag_ws(s[i]));
            lemma_trim_tag_at(s.drop_first(), 0, 0);
            assert(s.drop_first().subrange(0, 0) =~= s.subrange(a, b));
        } else {
            assert(a >= 1) by {
                if a == 0 {
                    assert(!is_tag_ws(s[0]));
                }
            }
            lemma_trim_tag_at(s.drop_first(), a - 1, b - 1);
            assert(s.drop_first().subrange(a - 1, b - 1) =~= s.subrange(a, b));
        }
    } else if is_tag_ws(s.last()) {
        assert(b < s.len()) by {
            if b == s.len() {
                assert(a != b) by {
                    if a == b {
                        assert(!is_tag_ws(s[0]));
                    }
                }
                assert(!is_tag_ws(s[b - 1]));
            }
        }
        lemma_trim_tag_at(s.drop_last(), a, b);
        assert(s.drop_last().subrange(a, b) =~= s.subrange(a, b));
    } else {
        assert(a == 0) by {
            if a > 0 {
                assert(is_tag_ws(s[0]));
            }
        }
        assert(b == s.len() as int) by {
            if b < s.len() {
                assert(is_tag_ws(s.last()));
            }
        }
        assert(s.subrange(0, s.len() as int) =~= s);
    }
}

/// The region of a buffer that remains after trimming surrounding
/// spaces lies between fully trimmed bounds.
proof fn lemma_trim_spaces_at(s: Seq<char>, a: int, b: int)
    requires
        0 <= a <= b <= s.len(),
        forall|i: int| 0 <= i < a ==> s[i] == ' ',
        forall|i: int| b <= i < s.len() ==> s[i] == ' ',
        a == b || (s[a] != ' ' && s[b - 1] != ' '),
    ensures
        trim_spaces_chars(s) == s.subrange(a, b),
    decreases s.len(),
{
    if s.len() == 0 {
        assert(s.subrange(0, 0) =~= s);
    } else if s[0] == ' ' {
        if a == b {
            assert(forall|i: int| 0 <= i < s.len() ==> s[i] == ' ');
            lemma_trim_spaces_at(s.drop_first(), 0, 0);
            assert(s.drop_first().subrange(0, 0) =~= s.subrange(a, b));
        } else {
            assert(a >= 1) by {
                if a == 0 {
                    assert(s[0] != ' ');
                }
            }
            lemma_trim_spaces_at(s.drop_first(), a - 1, b - 1);
            assert(s.drop_first().subrange(a - 1, b - 1) =~= s.subrange(a, b));
        }
    } else if s.last() == ' ' {
        assert(b < s.len()) by {
            if b == s.len() {
                assert(a != b) by {
                    if a == b {
                        assert(s[0] != ' ');
                    }
                }
                assert(s[b - 1] != ' ');
            }
        }
        lemma_trim_spaces_at(s.drop_last(), a, b);
        assert(s.drop_last().subrange(a, b) =~= s.subrange(a, b));
    } else {
        assert(a == 0) by {
            if a > 0 {
                assert(s[0] == ' ');
            }
        }
        assert(b == s.len() as int) by {
            if b < s.len() {
                assert(s.last() == ' ');
            }
        }
        assert(s.subrange(0, s.len() as int) =~= s);
    }
}

/// A copy of the buffer region between `from` and `to`.
fn copy_range(v: &Vec<char>, from: usize, to: usize) -> (r: Vec<char>)
    requires
        from <= to <= v@.len(),
    ensures
        r@ == v@.subrange(from as int, to as int),
{
    let mut out: Vec<char> = Vec::new();
    let mut i = from;

    while i < to
        invariant
            from <= i <= to <= v@.len(),
            out@ == v@.subrange(from as int, i as int),
        decreases to - i,
    {
        out.push(v[i]);
        proof {
            assert(v@.subrange(from as int, i + 1) =~= v@.subrange(from as int, i as int)
                + seq![v@[i as int]]);
        }
        i += 1;
    }

    out
}

/// A copy of the buffer with surrounding tag whitespace removed.
fn trim_tag_copy(v: &Vec<char>) -> (r: Vec<char>)
    ensures
        r@ == trim_tag(v@),
{
    let mut a: usize = 0;

    while a < v.len() && tag_ws(v[a])
        invariant
            a <= v@.len(),
            forall|i: int| 0 <= i < a ==> is_tag_ws(v@[i]),
        decreases v.len() - a,
    {
        a += 1;
    }

    let mut b: usize = v.len();

    while b > a && tag_ws(v[b - 1])
        invariant
            a <= b <= v@.len(),
            forall|i: int| b <= i < v@.len() ==> is_tag_ws(v@[i]),
        decreases b,
    {
        b -= 1;
    }

    proof {
        lemma_trim_tag_at(v@, a as int, b as int);
    }
    copy_range(v, a, b)
}

/// A copy of the buffer with surrounding spaces removed.
fn trim_spaces_copy(v: &Vec<char>) -> (r: Vec<char>)
    ensures
        r@ == trim_spaces_chars(v@),
{
    let mut a: usize = 0;

    while a < v.len() && v[a] == ' '
        invariant
            a <= v@.len(),
            forall|i: int| 0 <= i < a ==> v@[i] == ' ',
        decreases v.len() - a,
    {
        a += 1;
    }

    let mut b: usize = v.len();

    while b > a && v[b - 1] == ' '
        invariant
            a <= b <= v@.len(),
            forall|i: int| b <= i < v@.len() ==> v@[i] == ' ',
        decreases b,
    {
        b -= 1;
    }

    proof {
        lemma_trim_spaces_at(v@, a as int, b as int);
    }
    copy_range(v, a, b)
}

/// The first occurrence of a character, connected to scanning.
proof fn lemma_char_index_at(s: Seq<char>, c: char, k: int)
    requires
        0 <= k <= s.len(),
        forall|i: int| 0 <= i < k ==> s[i] != c,
        k == s.len() || s[k] == c,
    ensures
        char_index(s, c) == k,
    decreases k,
{
    if k == 0 {
    } else {
        lemma_char_index_at(s.drop_first(), c, k - 1);
    }
}

/// The position of the first occurrence of `c` in `v`, or the length.
fn find_char(v: &Vec<char>, c: char) -> (r: usize)
    ensures
        r == char_index(v@, c),
        r <= v@.len(),
        r < v@.len() ==> v@[r as int] == c,
        forall|i: int| 0 <= i < r ==> v@[i] != c,
{
    let mut i: usize = 0;

    while i < v.len()
        invariant
            i <= v@.len(),
            forall|j: int| 0 <= j < i ==> v@[j] != c,
        decreases v.len() - i,
    {
        if v[i] == c {
            proof {
                lemma_char_index_at(v@, c, i as int);
            }
            return i;
        }
        i += 1;
    }

    proof {
        lemma_char_index_at(v@, c, v@.len() as int);
    }
    i
}

/// The first occurrence of a key, connected to scanning.
proof fn lemma_key_index_at(xs: Seq<Seq<char>>, x: Seq<char>, k: int)
    requires
        0 <= k <= xs.len(),
        forall|i: int| 0 <= i < k ==> xs[i] != x,
        k == xs.len() || xs[k] == x,
    ensures
        key_index(xs, x) == k,
    decreases k,
{
    if k == 0 {
    } else {
        lemma_key_index_at(xs.drop_first(), x, k - 1);
    }
}

/// The position of a citation key in the key table, or the table's
/// length when the key is new.
fn find_key(xs: &Vec<Vec<char>>, x: &Vec<char>) -> (r: usize)
    ensures
        r == key_index(crate::templates::views_of(*xs), x@),
        r <= xs@.len(),
        r < xs@.len() ==> crate::templates::views_of(*xs)[r as int] == x@,
        forall|i: int| 0 <= i < r ==> crate::templates::views_of(*xs)[i] != x@,
{
    let ghost vs = crate::templates::views_of(*xs);
    let mut i: usize = 0;

    while i < xs.len()
        invariant
            i <= xs@.len(),
            vs == crate::templates::views_of(*xs),
            vs.len() == xs@.len(),
            forall|j: int| 0 <= j < i ==> vs[j] != x@,
        decreases xs.len() - i,
    {
        if chars_equal(&xs[i], x) {
            proof {
                assert(vs[i as int] == xs@[i as int]@);
                lemma_key_index_at(vs, x@, i as int);
            }
            return i;
        }
        proof {
            assert(vs[i as int] == xs@[i as int]@);
        }
        i += 1;
    }

    proof {
        lemma_key_index_at(vs, x@, vs.len() as int);
    }
    i
}

/// The element kinds of a frame stack.
pub open spec fn kinds_of(s: Seq<FrameV>) -> Seq<FrameKindV> {
    s.map_values(|f: FrameV| f.kind)
}

proof fn lemma_count_paras_kinds(a: Seq<FrameV>, b: Seq<FrameV>)
    requires
        kinds_of(a) == kinds_of(b),
    ensures
        count_paras(a) == count_paras(b),
    decreases a.len(),
{
    assert(a.len() == b.len()) by {
        assert(kinds_of(a).len() == a.len());
        assert(kinds_of(b).len() == b.len());
    }
    if a.len() > 0 {
        assert(kinds_of(a.drop_last()) =~= kinds_of(b.drop_last())) by {
            assert(forall|i: int|
                0 <= i < a.len() - 1 ==> #[trigger] kinds_of(a.drop_last())[i] == kinds_of(a)[i]);
            assert(forall|i: int|
                0 <= i < b.len() - 1 ==> #[trigger] kinds_of(b.drop_last())[i] == kinds_of(b)[i]);
        }
        assert(a.last().kind == kinds_of(a)[a.len() - 1]);
        assert(b.last().kind == kinds_of(b)[b.len() - 1]);
        lemma_count_paras_kinds(a.drop_last(), b.drop_last());
    }
}

proof fn lemma_count_push(s: Seq<FrameV>, f: FrameV)
    ensures
        count_paras(s.push(f)) == count_paras(s) + (if f.kind is Paragraph {
            1nat
        } else {
            0nat
        }),
{
    assert(s.push(f).drop_last() =~= s);
    assert(s.push(f).last() == f);
}

proof fn lemma_count_le_len(s: Seq<FrameV>)
    ensures
        count_paras(s) <= s.len(),
    decreases s.len(),
{
    if s.len() > 0 {
        lemma_count_le_len(s.drop_last());
    }
}

/// The pushdown machine, as executed: the session, the frame stack,
/// the bibliography progress, the top-level output, and two ghost
/// counters that bound the element numbering.
struct Machine {
    /// The session state.
    ren: Renderer,
    /// The open frames, outermost first.
    stack: Vec<Frame>,
    /// Where the bibliography protocol stands.
    mode: BibMode,
    /// The collected bibliography entries.
    bib: Vec<(usize, Vec<char>)>,
    /// The markup collected at the top level.
    out: Vec<char>,
    /// How many tokens have been consumed.
    done: Ghost<nat>,
    /// How many tokens the whole run holds.
    total: Ghost<nat>,
}

/// The mathematical value of the machine.
pub open spec fn ren_wf(r: Renderer) -> bool {
    r.table_cursor >= 1 && r.figure_cursor >= 1
}

spec fn m_view(m: Machine) -> MachineV {
    MachineV {
        ren: ren_view(m.ren),
        stack: stack_view(m.stack@),
        mode: m.mode,
        bib: bib_views(m.bib@),
        out: m.out@,
    }
}

impl Machine {
    /// What holds of the machine throughout a run: the element
    /// numbers and the paragraph depth are tied to the consumed
    /// tokens, so that neither can outgrow the machine's integers.
    spec fn wf(self) -> bool {
        &&& self.ren.table_cursor >= 1
        &&& self.ren.figure_cursor >= 1
        &&& (self.ren.table_cursor - 1) + (self.ren.figure_cursor - 1) + self.stack@.len()
            <= self.done@
        &&& self.done@ <= self.total@
        &&& self.total@ < usize::MAX
        &&& self.ren.p_level as nat == count_paras(stack_view(self.stack@))
    }

    /// Appends ready markup to the innermost open buffer.
    fn append_out(&mut self, chunk: &Vec<char>)
        ensures
            m_view(*final(self)) == emit(m_view(*old(self)), chunk@),
            final(self).done == old(self).done,
            final(self).total == old(self).total,
            final(self).stack@.len() == old(self).stack@.len(),
            kinds_of(stack_view(final(self).stack@)) == kinds_of(stack_view(old(self).stack@)),
            final(self).ren == old(self).ren,
            final(self).mode == old(self).mode,
            final(self).bib == old(self).bib,
    {
        if self.stack.len() == 0 {
            crate::templates::push_chars(&mut self.out, chunk);
        } else {
            let mut top = self.stack.pop().unwrap();
            crate::templates::push_chars(&mut top.buf, chunk);
            self.stack.push(top);
            proof {
                let os = stack_view(old(self).stack@);
                let i = os.len() - 1;
                assert(stack_view(self.stack@) =~= os.update(
                    i,
                    FrameV { kind: os[i].kind, buf: os[i].buf + chunk@ },
                ));
                assert(kinds_of(stack_view(self.stack@)) =~= kinds_of(os));
            }
        }
    }

    /// Opens a new frame.
    fn push_new(&mut self, k: FrameKind)
        ensures
            m_view(*final(self)) == push_frame(m_view(*old(self)), kind_view(k)),
            final(self).done == old(self).done,
            final(self).total == old(self).total,
            final(self).stack@.len() == old(self).stack@.len() + 1,
            final(self).ren == old(self).ren,
            final(self).mode == old(self).mode,
            count_paras(stack_view(final(self).stack@)) == count_paras(
                stack_view(old(self).stack@),
            ) + (if kind_view(k) is Paragraph {
                1nat
            } else {
                0nat
            }),
    {
        let ghost kv = kind_view(k);
        self.stack.push(Frame { kind: k, buf: Vec::new() });
        proof {
            assert(stack_view(self.stack@) =~= stack_view(old(self).stack@).push(
                FrameV { kind: kv, buf: Seq::empty() },
            ));
            lemma_count_push(stack_view(old(self).stack@), FrameV { kind: kv, buf: Seq::empty() });
        }
    }
}

/// Adds a key to a key list unless it is already present.
fn add_key(xs: &mut Vec<Vec<char>>, x: Vec<char>)
    ensures
        crate::templates::views_of(*final(xs)) == add_distinct(
            crate::templates::views_of(*old(xs)),
            x@,
        ),
{
    let ghost vs = crate::templates::views_of(*xs);
    let i = find_key(xs, &x);
    if i == xs.len() {
        proof {
            assert(!vs.contains(x@)) by {
                if vs.contains(x@) {
                    let j = choose|j: int| 0 <= j < vs.len() && vs[j] == x@;
                    assert(vs[j] != x@);
                }
            }
        }
        xs.push(x);
        proof {
            assert(crate::templates::views_of(*xs) =~= vs.push(x@));
        }
    } else {
        proof {
            assert(vs.contains(x@)) by {
                assert(vs[i as int] == x@);
            }
        }
    }
}

/// Resolves the citation tokens in a directive's content against the
/// key table, extending the table with keys cited for the first time,
/// and returns the resolved numbers in citation order.
fn resolve_cites_exec(refs: &mut Vec<Vec<char>>, data: &Vec<char>) -> (ids: Vec<usize>)
    ensures
        ({
            let r = resolve_cites(crate::templates::views_of(*old(refs)), cite_tokens(data@));
            ids@ == r.0 && crate::templates::views_of(*final(refs)) == r.1
        }),
{
    let ghost refs0 = crate::templates::views_of(*old(refs));
    let mut ids: Vec<usize> = Vec::new();
    let mut i: usize = 0;

    while i < data.len()
        invariant
            i <= data@.len(),
            ({
                let full = resolve_cites(refs0, cite_tokens_from(data@, 0));
                let rest = resolve_cites(
                    crate::templates::views_of(*refs),
                    cite_tokens_from(data@, i as int),
                );
                full.0 == ids@ + rest.0 && full.1 == rest.1
            }),
        decreases data.len() - i,
    {
        let c = data[i];
        if c == ',' || c == ' ' {
            i += 1;
        } else {
            let ghost oi = i as int;
            let ghost ids0 = ids@;
            let mut e = i + 1;
            while e < data.len() && !(data[e] == ',' || data[e] == ' ')
                invariant
                    i + 1 <= e <= data@.len(),
                    cite_token_end(data@, i + 1) == cite_token_end(data@, e as int),
                decreases data.len() - e,
            {
                e += 1;
            }

            let tok = copy_range(data, i, e);
            let ghost pre = crate::templates::views_of(*refs);
            let j = find_key(refs, &tok);
            let id: usize;
            if j == refs.len() {
                proof {
                    assert(!pre.contains(tok@)) by {
                        if pre.contains(tok@) {
                            let w = choose|w: int| 0 <= w < pre.len() && pre[w] == tok@;
                            assert(pre[w] != tok@);
                        }
                    }
                }
                refs.push(tok);
                id = refs.len();
                proof {
                    assert(crate::templates::views_of(*refs) =~= pre.push(
                        data@.subrange(oi, e as int),
                    ));
                }
            } else {
                id = j + 1;
            }
            ids.push(id);
            i = e;
            proof {
                let s = data@;
                assert(cite_token_end(s, oi + 1) == e as int);
                let t0 = s.subrange(oi, e as int);
                assert(tok@ == t0);
                let tail = cite_tokens_from(s, e as int);
                assert(cite_tokens_from(s, oi) =~= seq![t0] + tail);
                assert((seq![t0] + tail)[0] == t0);
                assert((seq![t0] + tail).drop_first() =~= tail);
                let step = resolve_cites(pre, seq![t0] + tail);
                let refs2 = crate::templates::views_of(*refs);
                assert(step.0 =~= seq![id] + resolve_cites(refs2, tail).0);
                assert(step.1 == resolve_cites(refs2, tail).1);
                assert(ids@ =~= ids0.push(id));
                assert(ids0.push(id) + resolve_cites(refs2, tail).0 =~= ids0 + (seq![id]
                    + resolve_cites(refs2, tail).0));
            }
        }
    }

    proof {
        assert(resolve_cites(
            crate::templates::views_of(*refs),
            cite_tokens_from(data@, data@.len() as int),
        ).0 =~= Seq::<usize>::empty());
        assert(ids@ =~= ids@ + Seq::<usize>::empty());
    }
    ids
}

impl Machine {
    /// Completes a popped frame: wraps its content with the element's
    /// markup and applies the element's effect on the session.
    fn complete(&mut self, f: Frame)
        requires
            old(self).ren.table_cursor >= 1,
            old(self).ren.figure_cursor >= 1,
            old(self).ren.table_cursor < usize::MAX,
            old(self).ren.figure_cursor < usize::MAX,
            kind_view(f.kind) is Paragraph ==> old(self).ren.p_level >= 1,
        ensures
            m_view(*final(self)) == complete_frame(m_view(*old(self)), frame_view(f)),
            final(self).done == old(self).done,
            final(self).total == old(self).total,
            final(self).stack@.len() == old(self).stack@.len(),
            kinds_of(stack_view(final(self).stack@)) == kinds_of(stack_view(old(self).stack@)),
            final(self).ren.table_cursor + final(self).ren.figure_cursor <= old(
                self,
            ).ren.table_cursor + old(self).ren.figure_cursor + 1,
            final(self).ren.table_cursor >= old(self).ren.table_cursor,
            final(self).ren.figure_cursor >= old(self).ren.figure_cursor,
            final(self).ren.p_level == old(self).ren.p_level - (if kind_view(f.kind)
                is Paragraph {
                1int
            } else {
                0int
            }),
    {
        match f.kind {
            FrameKind::Paragraph => {
                if f.buf.len() > 0 {
                    let mut tmp: Vec<char> = Vec::new();
                    let t = crate::templates::Paragraph { content: f.buf };
                    t.render_into(&mut tmp);
                    self.append_out(&tmp);
                }
                self.ren.p_level = self.ren.p_level - 1;
            },
            FrameKind::Heading => {
                let id = crate::text::make_id(&f.buf);
                let mut tmp: Vec<char> = Vec::new();
                let t = crate::templates::Subheading { id, content: f.buf };
                t.render_into(&mut tmp);
                self.append_out(&tmp);
            },
            FrameKind::BlockQuote => {
                let mut tmp: Vec<char> = Vec::new();
                let t = crate::templates::Quote { content: f.buf };
                t.render_into(&mut tmp);
                self.append_out(&tmp);
            },
            FrameKind::CodeBlock { language } => {
                let mut tmp: Vec<char> = Vec::new();
                let t = crate::templates::Codeblock {
                    language: clone_chars(&language),
                    content: f.buf,
                };
                t.render_into(&mut tmp);
                self.append_out(&tmp);
                self.ren.uses_code = true;
                add_key(&mut self.ren.languages, language);
            },
            FrameKind::ListOrdered => {
                let mut tmp: Vec<char> = Vec::new();
                let t = crate::templates::OrderedList { items: f.buf };
                t.render_into(&mut tmp);
                self.append_out(&tmp);
            },
            FrameKind::ListUnordered => {
                let mut tmp: Vec<char> = Vec::new();
                let t = crate::templates::UnorderedList { items: f.buf };
                t.render_into(&mut tmp);
                self.append_out(&tmp);
            },
            FrameKind::Item => {
                let mut tmp: Vec<char> = Vec::new();
                let t = crate::templates::ListItem { content: f.buf };
                t.render_into(&mut tmp);
                self.append_out(&tmp);
            },
            FrameKind::Table => {
                let mut desc: Vec<char> = Vec::new();
                core::mem::swap(&mut desc, &mut self.ren.description);
                let mut tmp: Vec<char> = Vec::new();
                let t = crate::templates::Table {
                    number: self.ren.table_cursor,
                    content: f.buf,
                    description: desc,
                };
                t.render_into(&mut tmp);
                self.append_out(&tmp);
                self.ren.table_cursor = self.ren.table_cursor + 1;
            },
            FrameKind::TableHead => {
                let mut tmp: Vec<char> = Vec::new();
                let t = crate::templates::TableHead { content: f.buf };
                t.render_into(&mut tmp);
                self.append_out(&tmp);
            },
            FrameKind::TableRow => {
                let mut tmp: Vec<char> = Vec::new();
                let t = crate::templates::TableRow { content: f.buf };
                t.render_into(&mut tmp);
                self.append_out(&tmp);
            },
            FrameKind::TableCell => {
                let mut tmp: Vec<char> = Vec::new();
                let t = crate::templates::TableCell { content: f.buf };
                t.render_into(&mut tmp);
                self.append_out(&tmp);
            },
            FrameKind::Emphasis => {
                let mut tmp: Vec<char> = Vec::new();
                let t = crate::templates::Emphasis { content: f.buf };
                t.render_into(&mut tmp);
                self.append_out(&tmp);
            },
            FrameKind::Bold => {
                let mut tmp: Vec<char> = Vec::new();
                let t = crate::templates::Bold { content: f.buf };
                t.render_into(&mut tmp);
                self.append_out(&tmp);
            },
            FrameKind::Strikethrough => {
                let mut tmp: Vec<char> = Vec::new();
                let t = crate::templates::Strikethrough { content: f.buf };
                t.render_into(&mut tmp);
                self.append_out(&tmp);
            },
            FrameKind::Link { url, on_disk } => {
                let mut tmp: Vec<char> = Vec::new();
                let t = crate::templates::Link { url: clone_chars(&url), content: f.buf };
                t.render_into(&mut tmp);
                self.append_out(&tmp);
                if on_disk {
                    add_key(&mut self.ren.file_mentions, url);
                }
            },
            FrameKind::Image { url, on_disk } => {
                let shown: Vec<char> = if on_disk && crate::transformer::is_image(&url) {
                    crate::transformer::transform_image_filename(&url)
                } else {
                    clone_chars(&url)
                };
                let mut desc: Vec<char> = Vec::new();
                core::mem::swap(&mut desc, &mut self.ren.description);
                let mut tmp: Vec<char> = Vec::new();
                let t = crate::templates::Figure {
                    number: self.ren.figure_cursor,
                    url: shown,
                    description: desc,
                    inside_p: self.ren.p_level > 0,
                };
                t.render_into(&mut tmp);
                self.append_out(&tmp);
                self.ren.figure_cursor = self.ren.figure_cursor + 1;
                if on_disk {
                    add_key(&mut self.ren.file_mentions, url);
                }
            },
            FrameKind::HtmlBlock => {
                self.append_out(&f.buf);
            },
            FrameKind::TableTitle => {
                self.ren.description = f.buf;
            },
            FrameKind::FigureTitle => {
                self.ren.description = f.buf;
            },
            FrameKind::Cite => {
                let ids = resolve_cites_exec(&mut self.ren.references, &f.buf);
                let mut tmp: Vec<char> = Vec::new();
                let t = crate::templates::Citation { ids };
                t.render_into(&mut tmp);
                self.append_out(&tmp);
            },
            FrameKind::RefEntry { id } => {
                self.bib.push((id, f.buf));
                self.mode = BibMode::AfterRef;
                proof {
                    assert(bib_views(self.bib@) =~= bib_views(old(self).bib@).push(
                        (id, frame_view(f).buf),
                    ));
                }
            },
        }
    }
}

proof fn lemma_insert_by_id_at(s: Seq<(usize, Seq<char>)>, x: (usize, Seq<char>), j: int)
    requires
        0 <= j <= s.len(),
        forall|k: int| j <= k < s.len() ==> x.0 < #[trigger] s[k].0,
        j == 0 || x.0 >= s[j - 1].0,
    ensures
        insert_by_id(s, x) == s.subrange(0, j) + seq![x] + s.subrange(j, s.len() as int),
    decreases s.len(),
{
    if s.len() == 0 {
        assert(insert_by_id(s, x) =~= s.subrange(0, 0) + seq![x] + s.subrange(0, 0));
    } else if x.0 < s.last().0 {
        assert(j < s.len()) by {
            if j == s.len() {
                assert(x.0 >= s[j - 1].0);
            }
        }
        lemma_insert_by_id_at(s.drop_last(), x, j);
        assert(s.drop_last().subrange(0, j) =~= s.subrange(0, j));
        assert(s.drop_last().subrange(j, s.len() - 1) =~= s.subrange(j, s.len() - 1));
        assert((s.subrange(0, j) + seq![x] + s.subrange(j, s.len() - 1)).push(s.last()) =~= s
            .subrange(0, j) + seq![x] + s.subrange(j, s.len() as int));
    } else {
        assert(j == s.len()) by {
            if j < s.len() {
                assert(x.0 < s[s.len() - 1].0);
            }
        }
        assert(s.push(x) =~= s.subrange(0, j) + seq![x] + s.subrange(j, s.len() as int)) by {
            assert(s.subrange(0, s.len() as int) =~= s);
            assert(s.subrange(s.len() as int, s.len() as int) =~= Seq::<(usize, Seq<char>)>::empty());
        }
    }
}

/// Sorts the collected bibliography entries by their numbers, entries
/// of equal number keeping their order.
fn sort_bib(bib: Vec<(usize, Vec<char>)>) -> (r: Vec<(usize, Vec<char>)>)
    ensures
        bib_views(r@) == sort_by_id(bib_views(bib@)),
{
    let ghost orig = bib_views(bib@);
    let mut rest = bib;
    let mut res: Vec<(usize, Vec<char>)> = Vec::new();

    proof {
        assert(bib_views(res@) =~= Seq::<(usize, Seq<char>)>::empty());
        assert(sort_by_id(bib_views(rest@).subrange(0, 0)) == Seq::<(usize, Seq<char>)>::empty());
    }

    let mut taken: usize = 0;
    // Reading the length ties the entry count to the machine's range.
    let _count: usize = rest.len();

    while rest.len() > 0
        invariant
            taken + rest@.len() == orig.len(),
            orig.len() <= usize::MAX,
            bib_views(rest@) =~= orig.subrange(taken as int, orig.len() as int),
            bib_views(res@) == sort_by_id(orig.subrange(0, taken as int)),
        decreases rest.len(),
    {
        let ghost pre_rest = bib_views(rest@);
        let x = rest.remove(0);
        let ghost xv = (x.0, x.1@);
        proof {
            assert(pre_rest[0] == xv);
            assert(bib_views(rest@) =~= pre_rest.drop_first());
        }
        let ghost sorted_pre = bib_views(res@);

        let mut j = res.len();
        while j > 0 && x.0 < res[j - 1].0
            invariant
                j <= res@.len(),
                sorted_pre == bib_views(res@),
                xv == (x.0, x.1@),
                forall|k2: int| j <= k2 < res@.len() ==> xv.0 < #[trigger] sorted_pre[k2].0,
            decreases j,
        {
            proof {
                assert(sorted_pre[j - 1].0 == res@[j - 1].0);
            }
            j -= 1;
        }

        proof {
            if j > 0 {
                assert(sorted_pre[j - 1].0 == res@[j - 1].0);
            }
            lemma_insert_by_id_at(sorted_pre, xv, j as int);
        }
        res.insert(j, x);
        taken += 1;
        proof {
            assert(bib_views(res@) =~= sorted_pre.subrange(0, j as int) + seq![xv]
                + sorted_pre.subrange(j as int, sorted_pre.len() as int));
            assert(bib_views(rest@) =~= orig.subrange(taken as int, orig.len() as int));
            let pre = orig.subrange(0, taken - 1);
            let cur = orig.subrange(0, taken as int);
            assert(cur.drop_last() =~= pre);
            assert(cur.last() == orig[taken - 1]);
            assert(xv == orig[taken - 1]);
            assert(sort_by_id(cur) == insert_by_id(sort_by_id(pre), xv));
        }
    }

    proof {
        assert(orig.subrange(0, orig.len() as int) =~= orig);
    }
    res
}

/// The first cited key whose bibliography entry is missing or carries
/// the wrong number, if any.
fn check_bib(refs: &Vec<Vec<char>>, bib: &Vec<(usize, Vec<char>)>) -> (r: Option<usize>)
    ensures
        match r {
            None => first_missing(
                crate::templates::views_of(*refs),
                bib_views(bib@),
                0,
            ) is None,
            Some(i) => first_missing(crate::templates::views_of(*refs), bib_views(bib@), 0)
                == Some(i as int) && i < refs@.len(),
        },
{
    let ghost rv = crate::templates::views_of(*refs);
    let ghost bv = bib_views(bib@);
    let mut i: usize = 0;

    while i < refs.len()
        invariant
            i <= refs@.len(),
            rv == crate::templates::views_of(*refs),
            bv == bib_views(bib@),
            rv.len() == refs@.len(),
            bv.len() == bib@.len(),
            first_missing(rv, bv, 0) == first_missing(rv, bv, i as int),
        decreases refs.len() - i,
    {
        if i < bib.len() && bib[i].0 == i + 1 {
            proof {
                assert(bv[i as int].0 == bib@[i as int].0);
            }
            i += 1;
        } else {
            proof {
                if i < bib.len() {
                    assert(bv[i as int].0 == bib@[i as int].0);
                }
            }
            return Some(i);
        }
    }

    None
}

/// Parses a bibliography reference tag against the citation table.
fn parse_ref_tag_exec(refs: &Vec<Vec<char>>, t: &Vec<char>) -> (r: Result<usize, RenderError>)
    ensures
        match parse_ref_tag(crate::templates::views_of(*refs), t@) {
            Ok(id) => r matches Ok(i) && i == id,
            Err(ev) => r matches Err(e) && err_view(e) == ev,
        },
{
    if t.len() < 5 {
        return Err(RenderError::RefTagShape);
    }
    let head = copy_range(t, 0, 5);
    if !chars_is_lit(&head, "<ref ") || t[t.len() - 1] != '>' {
        return Err(RenderError::RefTagShape);
    }

    let tail = copy_range(t, 4, t.len());
    let rest = trim_spaces_copy(&tail);

    let q = find_char(&rest, '"');
    let key = copy_range(&rest, 0, q);
    if !chars_is_lit(&key, "id=") {
        return Err(RenderError::RefTagInvalid);
    }

    let value: Vec<char> = if q < rest.len() {
        copy_range(&rest, q + 1, rest.len())
    } else {
        Vec::new()
    };
    proof {
        if q >= rest@.len() {
            assert(value@ =~= Seq::<char>::empty());
        }
    }

    let q2 = find_char(&value, '"');
    let idp = copy_range(&value, 0, q2);
    let id = trim_spaces_copy(&idp);

    let j = find_key(refs, &id);
    if j < refs.len() {
        Ok(j + 1)
    } else {
        Err(RenderError::UnknownRefId(id))
    }
}

/// A buffer with each ASCII upper-case letter lowered.
fn lower_chars(v: &Vec<char>) -> (r: Vec<char>)
    ensures
        r@ == lower_seq(v@),
{
    let mut out: Vec<char> = Vec::new();
    let mut i: usize = 0;

    while i < v.len()
        invariant
            i <= v@.len(),
            out@.len() == i,
            forall|j: int| 0 <= j < i ==> out@[j] == lower_char(v@[j]),
        decreases v.len() - i,
    {
        out.push(crate::text::char_to_lower(v[i]));
        i += 1;
    }

    proof {
        assert(out@ =~= lower_seq(v@));
    }
    out
}

impl Machine {
    /// Handles an element start outside the bibliography.
    fn start_element(&mut self, tag: &ElementTag, ex: bool) -> (r: Result<(), RenderError>)
        requires
            old(self).wf(),
            old(self).done@ < old(self).total@,
        ensures
            final(self).total == old(self).total,
            match r {
                Ok(()) => final(self).wf() && final(self).done@ == old(self).done@ + 1 && Ok::<
                    MachineV,
                    RenderErrorV,
                >(m_view(*final(self))) == step_start(
                    m_view(*old(self)),
                    element_tag_view(*tag),
                    ex,
                ),
                Err(err) => step_start(m_view(*old(self)), element_tag_view(*tag), ex) == Err::<
                    MachineV,
                    RenderErrorV,
                >(err_view(err)),
            },
    {
        proof {
            self.done@ = self.done@ + 1;
        }
        match tag {
            ElementTag::Paragraph => {
                self.push_new(FrameKind::Paragraph);
                proof {
                    lemma_count_le_len(stack_view(old(self).stack@));
                }
                self.ren.p_level = self.ren.p_level + 1;
                Ok(())
            },
            ElementTag::Heading { level } => {
                if *level != 2 {
                    Err(RenderError::InvalidHeading)
                } else {
                    self.push_new(FrameKind::Heading);
                    Ok(())
                }
            },
            ElementTag::BlockQuote => {
                self.push_new(FrameKind::BlockQuote);
                Ok(())
            },
            ElementTag::CodeBlockFenced { language } => {
                let lang: Vec<char> = if language.len() == 0 {
                    crate::text::to_chars("plaintext")
                } else {
                    lower_chars(language)
                };
                self.push_new(FrameKind::CodeBlock { language: lang });
                Ok(())
            },
            ElementTag::CodeBlockIndented => {
                // An indented code block has no fence; the dialect
                // treats it as plain text, the same as an empty fence.
                self.push_new(FrameKind::CodeBlock { language: crate::text::to_chars("plaintext") });
                Ok(())
            },
            ElementTag::List { start } => {
                if start.is_some() {
                    self.push_new(FrameKind::ListOrdered);
                } else {
                    self.push_new(FrameKind::ListUnordered);
                }
                Ok(())
            },
            ElementTag::Item => {
                self.push_new(FrameKind::Item);
                Ok(())
            },
            ElementTag::Table => {
                self.push_new(FrameKind::Table);
                Ok(())
            },
            ElementTag::TableHead => {
                self.push_new(FrameKind::TableHead);
                Ok(())
            },
            ElementTag::TableRow => {
                self.push_new(FrameKind::TableRow);
                Ok(())
            },
            ElementTag::TableCell => {
                self.push_new(FrameKind::TableCell);
                Ok(())
            },
            ElementTag::Emphasis => {
                self.push_new(FrameKind::Emphasis);
                Ok(())
            },
            ElementTag::Strong => {
                self.push_new(FrameKind::Bold);
                Ok(())
            },
            ElementTag::Strikethrough => {
                self.push_new(FrameKind::Strikethrough);
                Ok(())
            },
            ElementTag::Link { url } => {
                self.push_new(FrameKind::Link { url: clone_chars(url), on_disk: ex });
                Ok(())
            },
            ElementTag::Image { url } => {
                self.push_new(FrameKind::Image { url: clone_chars(url), on_disk: ex });
                Ok(())
            },
            ElementTag::HtmlBlock => {
                self.push_new(FrameKind::HtmlBlock);
                Ok(())
            },
            ElementTag::Other => Err(RenderError::UnexpectedToken),
        }
    }

    /// Pops and completes the innermost frame; shared by the element
    /// end and the directive end.
    fn pop_complete(&mut self)
        requires
            old(self).wf(),
            old(self).done@ < old(self).total@,
            old(self).stack@.len() > 0,
        ensures
            final(self).total == old(self).total,
            final(self).done == old(self).done,
            final(self).wf(),
            m_view(*final(self)) == complete_frame(
                MachineV { stack: m_view(*old(self)).stack.drop_last(), ..m_view(*old(self)) },
                m_view(*old(self)).stack.last(),
            ),
    {
        let ghost pre = m_view(*old(self));
        let f = self.stack.pop().unwrap();
        proof {
            assert(stack_view(self.stack@) =~= pre.stack.drop_last());
            assert(frame_view(f) == pre.stack.last());
            // The cursors stay below the machine bound.
            assert(self.ren.table_cursor < usize::MAX);
            assert(self.ren.figure_cursor < usize::MAX);
            // A paragraph frame keeps the depth positive.
            assert(count_paras(pre.stack) == count_paras(pre.stack.drop_last()) + (
            if pre.stack.last().kind is Paragraph {
                1nat
            } else {
                0nat
            })) by {
                assert(pre.stack.drop_last() =~= pre.stack.drop_last());
            }
        }
        self.complete(f);
        proof {
            lemma_count_paras_kinds(
                stack_view(self.stack@),
                pre.stack.drop_last(),
            );
        }
    }


    /// Handles a raw-markup token outside the bibliography.
    fn html_token(&mut self, t: &Vec<char>, inline: bool) -> (r: Result<(), RenderError>)
        requires
            old(self).wf(),
            old(self).done@ < old(self).total@,
        ensures
            final(self).total == old(self).total,
            match r {
                Ok(()) => final(self).wf() && final(self).done@ == old(self).done@ + 1 && Ok::<
                    MachineV,
                    RenderErrorV,
                >(m_view(*final(self))) == step_html(m_view(*old(self)), t@, inline),
                Err(err) => step_html(m_view(*old(self)), t@, inline) == Err::<
                    MachineV,
                    RenderErrorV,
                >(err_view(err)),
            },
    {
        let n = self.stack.len();
        let mut matched = false;
        if n > 0 {
            matched = match &self.stack[n - 1].kind {
                FrameKind::TableTitle => chars_is_lit(t, "</table-title>"),
                FrameKind::FigureTitle => chars_is_lit(t, "</figure-title>"),
                FrameKind::Cite => chars_is_lit(t, "</cite>"),
                FrameKind::RefEntry { .. } => chars_is_lit(t, "</ref>"),
                _ => false,
            };
            proof {
                assert(stack_view(self.stack@).last() == frame_view(self.stack@[n - 1]));
                assert(matched == directive_end_matches(
                    stack_view(self.stack@).last().kind,
                    t@,
                ));
            }
        }

        if matched {
            self.pop_complete();
            proof {
                self.done@ = self.done@ + 1;
            }
            Ok(())
        } else {
            proof {
                self.done@ = self.done@ + 1;
            }
            let tt = trim_tag_copy(t);
            if chars_is_lit(&tt, "<table-title>") {
                self.push_new(FrameKind::TableTitle);
                Ok(())
            } else if chars_is_lit(&tt, "<figure-title>") {
                self.push_new(FrameKind::FigureTitle);
                Ok(())
            } else if chars_is_lit(&tt, "<cite>") {
                self.push_new(FrameKind::Cite);
                Ok(())
            } else if chars_is_lit(&tt, "<blank-line>") || chars_is_lit(&tt, "<blank-line/>") {
                let mut tmp: Vec<char> = Vec::new();
                let b = crate::templates::BlankLine {};
                b.render_into(&mut tmp);
                self.append_out(&tmp);
                proof {
                    lemma_count_paras_kinds(
                        stack_view(self.stack@),
                        stack_view(old(self).stack@),
                    );
                }
                Ok(())
            } else if inline {
                Err(RenderError::InvalidInlineHtml(clone_chars(t)))
            } else {
                Err(RenderError::InvalidHtml(clone_chars(t)))
            }
        }
    }

    /// Handles one token outside the bibliography modes.
    fn normal_token(&mut self, e: &Token, ex: bool) -> (r: Result<(), RenderError>)
        requires
            old(self).wf(),
            old(self).done@ < old(self).total@,
            old(self).mode == BibMode::Inactive || old(self).mode == BibMode::Collecting,
        ensures
            final(self).total == old(self).total,
            match r {
                Ok(()) => final(self).wf() && final(self).done@ == old(self).done@ + 1 && Ok::<
                    MachineV,
                    RenderErrorV,
                >(m_view(*final(self))) == step_normal(m_view(*old(self)), token_view(*e), ex),
                Err(err) => step_normal(m_view(*old(self)), token_view(*e), ex) == Err::<
                    MachineV,
                    RenderErrorV,
                >(err_view(err)),
            },
    {
        match e {
            Token::Start(tag) => self.start_element(tag, ex),
            Token::End { paragraph: _ } => {
                let n = self.stack.len();
                if n == 0 {
                    return Err(RenderError::UnexpectedEnd);
                }
                let dir = match &self.stack[n - 1].kind {
                    FrameKind::TableTitle => true,
                    FrameKind::FigureTitle => true,
                    FrameKind::Cite => true,
                    FrameKind::RefEntry { .. } => true,
                    _ => false,
                };
                proof {
                    assert(stack_view(self.stack@).last() == frame_view(self.stack@[n - 1]));
                    assert(dir == is_directive(stack_view(self.stack@).last().kind));
                }
                if dir {
                    return Err(RenderError::UnexpectedEnd);
                }
                self.pop_complete();
                proof {
                    self.done@ = self.done@ + 1;
                }
                Ok(())
            },
            Token::Text(t) => {
                self.append_out(t);
                proof {
                    self.done@ = self.done@ + 1;
                    lemma_count_paras_kinds(
                        stack_view(self.stack@),
                        stack_view(old(self).stack@),
                    );
                }
                Ok(())
            },
            Token::Code(c) => {
                let mut tmp: Vec<char> = Vec::new();
                let ct = crate::templates::CodeTag { content: clone_chars(c) };
                ct.render_into(&mut tmp);
                self.append_out(&tmp);
                self.ren.uses_code = true;
                proof {
                    self.done@ = self.done@ + 1;
                    lemma_count_paras_kinds(
                        stack_view(self.stack@),
                        stack_view(old(self).stack@),
                    );
                }
                Ok(())
            },
            Token::Html(t) => self.html_token(t, false),
            Token::InlineHtml(t) => self.html_token(t, true),
            Token::SoftBreak => {
                let mut tmp: Vec<char> = Vec::new();
                crate::text::push_str(&mut tmp, " ");
                self.append_out(&tmp);
                proof {
                    self.done@ = self.done@ + 1;
                    lemma_count_paras_kinds(
                        stack_view(self.stack@),
                        stack_view(old(self).stack@),
                    );
                }
                Ok(())
            },
            Token::HardBreak => {
                let mut tmp: Vec<char> = Vec::new();
                let b = crate::templates::Linebreak {};
                b.render_into(&mut tmp);
                self.append_out(&tmp);
                proof {
                    self.done@ = self.done@ + 1;
                    lemma_count_paras_kinds(
                        stack_view(self.stack@),
                        stack_view(old(self).stack@),
                    );
                }
                Ok(())
            },
            Token::Rule => {
                if self.mode == BibMode::Collecting {
                    Err(RenderError::BibliographyContent)
                } else if self.ren.p_level != 0 {
                    Err(RenderError::NestedRule)
                } else {
                    self.mode = BibMode::ExpectParagraph;
                    proof {
                        self.done@ = self.done@ + 1;
                    }
                    Ok(())
                }
            },
            Token::Other => Err(RenderError::UnexpectedToken),
        }
    }

    /// Consumes one token of the stream.
    fn dispatch(&mut self, e: &Token, ex: bool) -> (r: Result<(), RenderError>)
        requires
            old(self).wf(),
            old(self).done@ < old(self).total@,
        ensures
            final(self).total == old(self).total,
            match r {
                Ok(()) => final(self).wf() && final(self).done@ == old(self).done@ + 1 && Ok::<
                    MachineV,
                    RenderErrorV,
                >(m_view(*final(self))) == spec_step(m_view(*old(self)), token_view(*e), ex),
                Err(err) => spec_step(m_view(*old(self)), token_view(*e), ex) == Err::<
                    MachineV,
                    RenderErrorV,
                >(err_view(err)),
            },
    {
        match self.mode {
            BibMode::Done => Err(RenderError::BibliographyNotLast),
            BibMode::ExpectParagraph => {
                match e {
                    Token::Start(ElementTag::Paragraph) => {
                        self.mode = BibMode::ExpectRef;
                        proof {
                            self.done@ = self.done@ + 1;
                        }
                        Ok(())
                    },
                    _ => Err(RenderError::BibliographyContent),
                }
            },
            BibMode::ExpectRef => {
                match e {
                    Token::Html(t) => self.ref_token(t),
                    Token::InlineHtml(t) => self.ref_token(t),
                    _ => Err(RenderError::RefTagExpected),
                }
            },
            BibMode::AfterRef => {
                match e {
                    Token::End { paragraph } => {
                        if *paragraph {
                            self.mode = BibMode::Done;
                            proof {
                                self.done@ = self.done@ + 1;
                            }
                            Ok(())
                        } else {
                            Err(RenderError::BibliographyContent)
                        }
                    },
                    Token::SoftBreak => {
                        self.mode = BibMode::ExpectRef;
                        proof {
                            self.done@ = self.done@ + 1;
                        }
                        Ok(())
                    },
                    _ => Err(RenderError::BibliographyContent),
                }
            },
            BibMode::Inactive => self.normal_token(e, ex),
            BibMode::Collecting => self.normal_token(e, ex),
        }
    }

    /// Handles the tag that opens a bibliography entry.
    fn ref_token(&mut self, t: &Vec<char>) -> (r: Result<(), RenderError>)
        requires
            old(self).wf(),
            old(self).done@ < old(self).total@,
            old(self).mode == BibMode::ExpectRef,
        ensures
            final(self).total == old(self).total,
            match r {
                Ok(()) => final(self).wf() && final(self).done@ == old(self).done@ + 1 && Ok::<
                    MachineV,
                    RenderErrorV,
                >(m_view(*final(self))) == spec_step_ref(m_view(*old(self)), t@),
                Err(err) => spec_step_ref(m_view(*old(self)), t@) == Err::<
                    MachineV,
                    RenderErrorV,
                >(err_view(err)),
            },
    {
        match parse_ref_tag_exec(&self.ren.references, t) {
            Ok(id) => {
                self.push_new(FrameKind::RefEntry { id });
                self.mode = BibMode::Collecting;
                proof {
                    self.done@ = self.done@ + 1;
                }
                Ok(())
            },
            Err(e) => Err(e),
        }
    }

    /// Completes every remaining frame, innermost first.
    fn drain(&mut self)
        requires
            old(self).wf(),
        ensures
            final(self).wf(),
            final(self).stack@.len() == 0,
            m_view(*final(self)) == unwind(m_view(*old(self)), old(self).stack@.len() as nat),
    {
        let ghost mv0 = m_view(*old(self));
        let ghost k0 = old(self).stack@.len() as nat;

        while self.stack.len() > 0
            invariant
                self.wf(),
                unwind(mv0, k0) == unwind(m_view(*self), self.stack@.len() as nat),
            decreases self.stack.len(),
        {
            let ghost pre = m_view(*self);
            let ghost prelen = self.stack@.len() as nat;
            let f = self.stack.pop().unwrap();
            proof {
                assert(stack_view(self.stack@) =~= pre.stack.drop_last());
                assert(frame_view(f) == pre.stack.last());
                assert(self.ren.table_cursor < usize::MAX);
                assert(self.ren.figure_cursor < usize::MAX);
            }
            self.complete(f);
            proof {
                lemma_count_paras_kinds(stack_view(self.stack@), pre.stack.drop_last());
                assert(unwind(pre, prelen) == unwind(m_view(*self), self.stack@.len() as nat));
            }
        }
    }

    /// The error when the stream ends inside an open bibliography.
    fn unfinished(&self, fallback: RenderError) -> (r: RenderError)
        requires
            err_view(fallback) == RenderErrorV::BibliographyContent || err_view(fallback)
                == RenderErrorV::RefTagExpected,
        ensures
            unfinished_bibliography(m_view(*self), err_view(fallback)) == Err::<
                (RendererV, Seq<char>),
                RenderErrorV,
            >(err_view(r)),
    {
        let sorted = sort_bib(copy_bib(&self.bib));
        match check_bib(&self.ren.references, &sorted) {
            Some(i) => RenderError::MissingEntry(clone_chars(&self.ren.references[i])),
            None => fallback,
        }
    }

    /// Finishes the run when the token stream ends.
    fn finish(self) -> (r: Result<(Renderer, Vec<char>), RenderError>)
        requires
            self.wf(),
        ensures
            match finalize(m_view(self)) {
                Ok(p) => r matches Ok(q) && ren_view(q.0) == p.0 && q.1@ == p.1,
                Err(e) => r matches Err(err) && err_view(err) == e,
            },
    {
        let mut m = self;
        match m.mode {
            BibMode::ExpectParagraph => Err(m.unfinished(RenderError::BibliographyContent)),
            BibMode::ExpectRef => Err(m.unfinished(RenderError::RefTagExpected)),
            BibMode::Collecting => Err(m.unfinished(RenderError::RefTagExpected)),
            BibMode::AfterRef => Err(m.unfinished(RenderError::BibliographyContent)),
            BibMode::Inactive => {
                if m.ren.references.len() > 0 {
                    Err(RenderError::MissingEntry(clone_chars(&m.ren.references[0])))
                } else {
                    m.drain();
                    Ok((m.ren, m.out))
                }
            },
            BibMode::Done => {
                let ghost mv = m_view(m);
                let sorted = sort_bib(copy_bib(&m.bib));
                proof {
                    assert(bib_views(sorted@).len() == sorted@.len());
                }
                match check_bib(&m.ren.references, &sorted) {
                    Some(i) => Err(
                        RenderError::MissingEntry(clone_chars(&m.ren.references[i])),
                    ),
                    None => {
                        if sorted.len() > m.ren.references.len() {
                            let d = sorted[m.ren.references.len()].0;
                            proof {
                                assert(bib_views(sorted@)[m.ren.references@.len() as int].0
                                    == d);
                            }
                            if d >= 1 && d <= m.ren.references.len() {
                                Err(
                                    RenderError::DuplicateEntry(
                                        clone_chars(&m.ren.references[d - 1]),
                                    ),
                                )
                            } else {
                                Err(RenderError::BibliographyContent)
                            }
                        } else {
                            let mut tmp: Vec<char> = Vec::new();
                            let bt = crate::templates::Bibliography { references: sorted };
                            bt.render_into(&mut tmp);
                            m.append_out(&tmp);
                            proof {
                                lemma_count_paras_kinds(
                                    stack_view(m.stack@),
                                    mv.stack,
                                );
                                assert(m_view(m) == emit(
                                    mv,
                                    bibliography_markup(sort_by_id(mv.bib)),
                                ));
                            }
                            m.drain();
                            Ok((m.ren, m.out))
                        }
                    },
                }
            },
        }
    }
}

/// A fresh copy of the collected bibliography entries.
fn copy_bib(b: &Vec<(usize, Vec<char>)>) -> (r: Vec<(usize, Vec<char>)>)
    ensures
        bib_views(r@) == bib_views(b@),
{
    let mut out: Vec<(usize, Vec<char>)> = Vec::new();
    let mut i: usize = 0;

    while i < b.len()
        invariant
            i <= b@.len(),
            out@.len() == i,
            forall|j: int|
                0 <= j < i ==> #[trigger] out@[j].0 == b@[j].0 && out@[j].1@ == b@[j].1@,
        decreases b.len() - i,
    {
        out.push((b[i].0, clone_chars(&b[i].1)));
        i += 1;
    }

    proof {
        assert(bib_views(out@) =~= bib_views(b@));
    }
    out
}

/// A fresh copy of a key list.
fn copy_keys(xs: &Vec<Vec<char>>) -> (r: Vec<Vec<char>>)
    ensures
        crate::templates::views_of(r) == crate::templates::views_of(*xs),
{
    let mut out: Vec<Vec<char>> = Vec::new();
    let mut i: usize = 0;

    while i < xs.len()
        invariant
            i <= xs@.len(),
            out@.len() == i,
            forall|j: int| 0 <= j < i ==> #[trigger] out@[j]@ == xs@[j]@,
        decreases xs.len() - i,
    {
        out.push(clone_chars(&xs[i]));
        i += 1;
    }

    proof {
        assert(crate::templates::views_of(out) =~= crate::templates::views_of(*xs));
    }
    out
}

/// A fresh copy of a list of strings.
pub fn copy_strings(xs: &Vec<String>) -> (r: Vec<String>)
    ensures
        crate::templates::str_views_of(r) == crate::templates::str_views_of(*xs),
{
    let mut out: Vec<String> = Vec::new();
    let mut i: usize = 0;

    while i < xs.len()
        invariant
            i <= xs@.len(),
            out@.len() == i,
            forall|j: int| 0 <= j < i ==> #[trigger] out@[j]@ == xs@[j]@,
        decreases xs.len() - i,
    {
        out.push(xs[i].clone());
        i += 1;
    }

    proof {
        assert(crate::templates::str_views_of(out) =~= crate::templates::str_views_of(*xs));
    }
    out
}

/// Builds the path a link target resolves to and asks the file
/// system whether it exists. The answer depends on the disk, so
/// nothing is known of it.
fn probe_target(basedir: &str, url: &Vec<char>) -> bool {
    let mut path: Vec<char> = Vec::new();
    if url.len() > 0 && url[0] == '/' {
        crate::templates::push_chars(&mut path, url);
    } else {
        crate::text::push_str(&mut path, basedir);
        if basedir.unicode_len() > 0 {
            path.push('/');
        }
        crate::templates::push_chars(&mut path, url);
    }
    let joined = crate::ext::chars_to_string(&path);
    crate::ext::path_exists(joined.as_str())
}

/// The whole markup placed before a document's body: the page head,
/// the headline, and the category line.
pub open spec fn header_markup_spec(
    r: RendererV,
    title: Seq<char>,
    categories: Seq<Seq<char>>,
    date: crate::metadata::PostDate,
    url: Seq<char>,
) -> Seq<char> {
    crate::templates::post_header_markup(
        title,
        r.uses_code,
        r.languages,
        crate::templates::join_all(categories, ", "@),
        url,
    ) + crate::templates::headline_markup(title) + crate::templates::categories_markup(
        categories,
        date.day as nat,
        crate::metadata::month_name_spec(date.month),
        date.year as nat,
    )
}

impl Renderer {
    /// A fresh session: counters at one, no pending description, and
    /// empty side sets.
    pub fn new() -> (r: Renderer)
        ensures
            ren_view(r) == initial_renderer(),
            r.table_cursor == 1,
            r.figure_cursor == 1,
            r.p_level == 0,
    {
        let r = Renderer {
            uses_code: false,
            table_cursor: 1,
            figure_cursor: 1,
            p_level: 0,
            description: Vec::new(),
            file_mentions: Vec::new(),
            references: Vec::new(),
            languages: Vec::new(),
        };
        proof {
            assert(crate::templates::views_of(r.file_mentions) =~= Seq::<Seq<char>>::empty());
            assert(crate::templates::views_of(r.references) =~= Seq::<Seq<char>>::empty());
            assert(crate::templates::views_of(r.languages) =~= Seq::<Seq<char>>::empty());
            assert(ren_view(r) == initial_renderer());
        }
        r
    }

    /// The relative paths that resolved to existing files, in order of
    /// first mention.
    pub fn file_mentions(&self) -> (r: &Vec<Vec<char>>)
        ensures
            r == self.file_mentions,
    {
        &self.file_mentions
    }

    /// The distinct code languages seen, in order of first use.
    pub fn languages_used(&self) -> (r: &Vec<Vec<char>>)
        ensures
            r == self.languages,
    {
        &self.languages
    }

    /// Renders a token stream, with `exists` recording for each token
    /// whether a link or image target of that token exists on disk.
    pub fn render_events(&mut self, events: &Vec<Token>, exists: &Vec<bool>) -> (r: Result<
        String,
        RenderError,
    >)
        requires
            old(self).table_cursor == 1,
            old(self).figure_cursor == 1,
            old(self).p_level == 0,
            exists@.len() == events@.len(),
            events@.len() < usize::MAX,
        ensures
            match r {
                Ok(s) => spec_render(ren_view(*old(self)), tokens_view(events@), exists@)
                    == Ok::<(RendererV, Seq<char>), RenderErrorV>((ren_view(*final(self)), s@)),
                Err(e) => spec_render(ren_view(*old(self)), tokens_view(events@), exists@)
                    == Err::<(RendererV, Seq<char>), RenderErrorV>(err_view(e)),
            },
    {
        let ghost r0 = ren_view(*old(self));
        let ghost toks = tokens_view(events@);
        let ghost exv = exists@;

        let mut taken = Renderer::new();
        core::mem::swap(self, &mut taken);

        let mut m = Machine {
            ren: taken,
            stack: Vec::new(),
            mode: BibMode::Inactive,
            bib: Vec::new(),
            out: Vec::new(),
            done: Ghost(0nat),
            total: Ghost(events@.len() as nat),
        };

        proof {
            assert(stack_view(m.stack@) =~= Seq::<FrameV>::empty());
            assert(bib_views(m.bib@) =~= Seq::<(usize, Seq<char>)>::empty());
            assert(m_view(m) == initial_machine(r0));
        }

        let mut i: usize = 0;

        while i < events.len()
            invariant
                i <= events@.len(),
                m.wf(),
                m.done@ == i as nat,
                m.total@ == events@.len() as nat,
                r0 == ren_view(*old(self)),
                toks == tokens_view(events@),
                exv == exists@,
                toks.len() == events@.len(),
                exv.len() == events@.len(),
                spec_run_from(initial_machine(r0), toks, exv, 0) == spec_run_from(
                    m_view(m),
                    toks,
                    exv,
                    i as int,
                ),
            decreases events.len() - i,
        {
            let ghost pre = m_view(m);
            match m.dispatch(&events[i], exists[i]) {
                Ok(()) => {
                    proof {
                        assert(toks[i as int] == token_view(events@[i as int]));
                        assert(spec_run_from(pre, toks, exv, i as int) == spec_run_from(
                            m_view(m),
                            toks,
                            exv,
                            i + 1,
                        ));
                    }
                },
                Err(e) => {
                    proof {
                        assert(toks[i as int] == token_view(events@[i as int]));
                        assert(spec_run_from(pre, toks, exv, i as int)
                            == Err::<MachineV, RenderErrorV>(err_view(e)));
                    }
                    return Err(e);
                },
            }
            i += 1;
        }

        proof {
            assert(spec_run_from(m_view(m), toks, exv, i as int) == Ok::<
                MachineV,
                RenderErrorV,
            >(m_view(m)));
        }

        match m.finish() {
            Ok((ren2, outv)) => {
                let s = crate::ext::chars_to_string(&outv);
                *self = ren2;
                Ok(s)
            },
            Err(e) => Err(e),
        }
    }

    /// Renders a document body: decodes the bytes, obtains the token
    /// stream, probes each link and image target on disk, and runs the
    /// session over the stream.
    pub fn render_body(&mut self, content: &[u8], basedir: &str) -> (r: Result<
        String,
        RenderError,
    >)
        requires
            old(self).table_cursor == 1,
            old(self).figure_cursor == 1,
            old(self).p_level == 0,
        ensures
            match r {
                Ok(s) => vstd::utf8::valid_utf8(content@) && (exists|ex: Seq<bool>|
                    ex.len() == crate::markdown::markdown_events(
                        vstd::utf8::decode_utf8(content@),
                    ).len() && spec_render(
                        ren_view(*old(self)),
                        crate::markdown::markdown_events(vstd::utf8::decode_utf8(content@)),
                        ex,
                    ) == Ok::<(RendererV, Seq<char>), RenderErrorV>((
                        ren_view(*final(self)),
                        s@,
                    ))),
                Err(e) => (!vstd::utf8::valid_utf8(content@) && err_view(e) is NonUtf8) || (
                vstd::utf8::valid_utf8(content@) && (exists|ex: Seq<bool>|
                    ex.len() == crate::markdown::markdown_events(
                        vstd::utf8::decode_utf8(content@),
                    ).len() && spec_render(
                        ren_view(*old(self)),
                        crate::markdown::markdown_events(vstd::utf8::decode_utf8(content@)),
                        ex,
                    ) == Err::<(RendererV, Seq<char>), RenderErrorV>(err_view(e))))
                    || crate::markdown::markdown_events(
                    vstd::utf8::decode_utf8(content@),
                ).len() >= usize::MAX,
            },
    {
        let text = match core::str::from_utf8(content) {
            Ok(t) => t,
            Err(_) => {
                return Err(RenderError::NonUtf8);
            },
        };

        let events = crate::markdown::parse_markdown(text);
        if events.len() == usize::MAX {
            proof {
                assert(tokens_view(events@).len() == events@.len());
            }
            return Err(RenderError::UnexpectedToken);
        }

        let mut flags: Vec<bool> = Vec::new();
        let mut i: usize = 0;

        while i < events.len()
            invariant
                i <= events@.len(),
                flags@.len() == i,
            decreases events.len() - i,
        {
            let flag = match &events[i] {
                Token::Start(ElementTag::Link { url }) => probe_target(basedir, url),
                Token::Start(ElementTag::Image { url }) => probe_target(basedir, url),
                _ => false,
            };
            flags.push(flag);
            i += 1;
        }

        let res = self.render_events(&events, &flags);
        proof {
            assert(tokens_view(events@) == crate::markdown::markdown_events(text@));
        }
        res
    }

    /// Renders the markup placed before a document's body: the page
    /// head with the languages the body used, the headline, and the
    /// category line.
    pub fn render_header(&self, post: &crate::post::Post) -> (r: String)
        requires
            crate::post::date_wf(post.metadata.date),
        ensures
            r@ == header_markup_spec(
                ren_view(*self),
                post.metadata.title@,
                crate::templates::str_views_of(post.metadata.categories),
                post.metadata.date,
                post.url@,
            ),
    {
        let mut out: Vec<char> = Vec::new();

        let mut keywords: Vec<char> = Vec::new();
        crate::templates::push_join_strs(&mut keywords, &post.metadata.categories, ", ");

        let head = crate::templates::PostHeader {
            title: crate::text::to_chars(post.metadata.title.as_str()),
            uses_code: self.uses_code,
            languages: copy_keys(&self.languages),
            keywords,
            url: crate::text::to_chars(post.url.as_str()),
        };
        head.render_into(&mut out);

        let headline = crate::templates::Headline {
            headline: crate::text::to_chars(post.metadata.title.as_str()),
        };
        headline.render_into(&mut out);

        let line = crate::templates::Categories {
            categories: copy_strings(&post.metadata.categories),
            day: post.metadata.date.day,
            month: crate::text::to_chars(post.metadata.date.month_name()),
            year: post.metadata.date.year,
        };
        line.render_into(&mut out);

        proof {
            assert(out@ =~= header_markup_spec(
                ren_view(*self),
                post.metadata.title@,
                crate::templates::str_views_of(post.metadata.categories),
                post.metadata.date,
                post.url@,
            ));
        }
        crate::ext::chars_to_string(&out)
    }

    /// Renders the markup placed after a document's body.
    pub fn render_footer(&self) -> (r: String)
        ensures
            r@ == crate::templates::post_footer_markup(),
    {
        let mut out: Vec<char> = Vec::new();
        let foot = crate::templates::PostFooter {};
        foot.render_into(&mut out);
        crate::ext::chars_to_string(&out)
    }
}

} // verus!

//! The output markup of each semantic element: one struct per element,
//! each with an exact description of the text it emits.

use vstd::prelude::*;

verus! {

use crate::text::{dec_rep, push_number, push_str};

/// The views of a vector of character buffers.
pub open spec fn views_of(xs: Vec<Vec<char>>) -> Seq<Seq<char>> {
    xs@.map_values(|v: Vec<char>| v@)
}

/// The views of a vector of strings.
pub open spec fn str_views_of(xs: Vec<String>) -> Seq<Seq<char>> {
    xs@.map_values(|v: String| v@)
}

/// The first `i` pieces joined with `sep` between them.
pub open spec fn join_to(xs: Seq<Seq<char>>, sep: Seq<char>, i: int) -> Seq<char>
    decreases i,
{
    if i <= 0 {
        Seq::empty()
    } else if i == 1 {
        xs[0]
    } else {
        join_to(xs, sep, i - 1) + sep + xs[i - 1]
    }
}

/// All pieces joined with `sep` between them.
pub open spec fn join_all(xs: Seq<Seq<char>>, sep: Seq<char>) -> Seq<char> {
    join_to(xs, sep, xs.len() as int)
}

/// Appends the pieces joined with `sep` between them.
pub fn push_join(out: &mut Vec<char>, xs: &Vec<Vec<char>>, sep: &str)
    ensures
        final(out)@ == old(out)@ + join_all(views_of(*xs), sep@),
{
    let mut i: usize = 0;

    while i < xs.len()
        invariant
            i <= xs.len(),
            out@ == old(out)@ + join_to(views_of(*xs), sep@, i as int),
        decreases xs.len() - i,
    {
        if i > 0 {
            push_str(out, sep);
        }
        let piece = &xs[i];
        let mut j: usize = 0;
        let ghost head = out@;
        while j < piece.len()
            invariant
                j <= piece.len(),
                piece == xs@[i as int],
                i < xs@.len(),
                out@ == head + piece@.subrange(0, j as int),
            decreases piece.len() - j,
        {
            out.push(piece[j]);
            proof {
                assert(piece@.subrange(0, j + 1) =~= piece@.subrange(0, j as int)
                    + seq![piece@[j as int]]);
            }
            j += 1;
        }
        proof {
            assert(piece@.subrange(0, piece@.len() as int) =~= piece@);
            assert(views_of(*xs)[i as int] == piece@);
        }
        i += 1;
    }
}

/// Appends the strings joined with `sep` between them.
pub fn push_join_strs(out: &mut Vec<char>, xs: &Vec<String>, sep: &str)
    ensures
        final(out)@ == old(out)@ + join_all(str_views_of(*xs), sep@),
{
    let mut i: usize = 0;

    while i < xs.len()
        invariant
            i <= xs.len(),
            out@ == old(out)@ + join_to(str_views_of(*xs), sep@, i as int),
        decreases xs.len() - i,
    {
        if i > 0 {
            push_str(out, sep);
        }
        push_str(out, xs[i].as_str());
        proof {
            assert(str_views_of(*xs)[i as int] == xs@[i as int]@);
        }
        i += 1;
    }
}

/// Appends a whole character buffer.
pub fn push_chars(out: &mut Vec<char>, piece: &Vec<char>)
    ensures
        final(out)@ == old(out)@ + piece@,
{
    let mut j: usize = 0;

    while j < piece.len()
        invariant
            j <= piece.len(),
            out@ == old(out)@ + piece@.subrange(0, j as int),
        decreases piece.len() - j,
    {
        out.push(piece[j]);
        proof {
            assert(piece@.subrange(0, j + 1) =~= piece@.subrange(0, j as int)
                + seq![piece@[j as int]]);
        }
        j += 1;
    }

    proof {
        assert(piece@.subrange(0, piece@.len() as int) =~= piece@);
    }
}

/// The markup of a paragraph.
pub open spec fn paragraph_markup(content: Seq<char>) -> Seq<char> {
    "<p>"@ + content + "</p>\n"@
}

/// A paragraph of inline content.
pub struct Paragraph {
    /// The rendered inner content.
    pub content: Vec<char>,
}

impl Paragraph {
    /// Appends the paragraph markup.
    pub fn render_into(&self, out: &mut Vec<char>)
        ensures
            final(out)@ == old(out)@ + paragraph_markup(self.content@),
    {
        push_str(out, "<p>");
        push_chars(out, &self.content);
        push_str(out, "</p>\n");
        proof {
            assert(out@ =~= old(out)@ + paragraph_markup(self.content@));
        }
    }
}

/// The markup of a text node: the text itself, unchanged.
pub open spec fn text_markup(content: Seq<char>) -> Seq<char> {
    content
}

/// A plain text node.
pub struct Text {
    /// The text.
    pub content: Vec<char>,
}

impl Text {
    /// Appends the text itself.
    pub fn render_into(&self, out: &mut Vec<char>)
        ensures
            final(out)@ == old(out)@ + text_markup(self.content@),
    {
        push_chars(out, &self.content);
    }
}

/// The markup of a level-two heading with its anchor.
pub open spec fn subheading_markup(id: Seq<char>, content: Seq<char>) -> Seq<char> {
    "<h2 id=\""@ + id + "\">"@ + content + "</h2>\n"@
}

/// A level-two heading.
pub struct Subheading {
    /// The anchor identifier derived from the rendered content.
    pub id: Vec<char>,
    /// The rendered inner content.
    pub content: Vec<char>,
}

impl Subheading {
    /// Appends the heading markup.
    pub fn render_into(&self, out: &mut Vec<char>)
        ensures
            final(out)@ == old(out)@ + subheading_markup(self.id@, self.content@),
    {
        push_str(out, "<h2 id=\"");
        push_chars(out, &self.id);
        push_str(out, "\">");
        push_chars(out, &self.content);
        push_str(out, "</h2>\n");
        proof {
            assert(out@ =~= old(out)@ + subheading_markup(self.id@, self.content@));
        }
    }
}

/// The markup of a block quote.
pub open spec fn quote_markup(content: Seq<char>) -> Seq<char> {
    "<blockquote>"@ + content + "</blockquote>\n"@
}

/// A block quote.
pub struct Quote {
    /// The rendered inner content.
    pub content: Vec<char>,
}

impl Quote {
    /// Appends the quote markup.
    pub fn render_into(&self, out: &mut Vec<char>)
        ensures
            final(out)@ == old(out)@ + quote_markup(self.content@),
    {
        push_str(out, "<blockquote>");
        push_chars(out, &self.content);
        push_str(out, "</blockquote>\n");
        proof {
            assert(out@ =~= old(out)@ + quote_markup(self.content@));
        }
    }
}

/// The markup of a code block in a given language.
pub open spec fn codeblock_markup(language: Seq<char>, content: Seq<char>) -> Seq<char> {
    "<pre><code class=\"language-"@ + language + "\">"@ + content + "</code></pre>\n"@
}

/// A fenced code block.
pub struct Codeblock {
    /// The lower-cased language name.
    pub language: Vec<char>,
    /// The rendered inner content.
    pub content: Vec<char>,
}

impl Codeblock {
    /// Appends the code block markup.
    pub fn render_into(&self, out: &mut Vec<char>)
        ensures
            final(out)@ == old(out)@ + codeblock_markup(self.language@, self.content@),
    {
        push_str(out, "<pre><code class=\"language-");
        push_chars(out, &self.language);
        push_str(out, "\">");
        push_chars(out, &self.content);
        push_str(out, "</code></pre>\n");
        proof {
            assert(out@ =~= old(out)@ + codeblock_markup(self.language@, self.content@));
        }
    }
}

/// The markup of an inline code span.
pub open spec fn tag_markup(content: Seq<char>) -> Seq<char> {
    "<code>"@ + content + "</code>"@
}

/// An inline code span.
pub struct CodeTag {
    /// The code text.
    pub content: Vec<char>,
}

impl CodeTag {
    /// Appends the code span markup.
    pub fn render_into(&self, out: &mut Vec<char>)
        ensures
            final(out)@ == old(out)@ + tag_markup(self.content@),
    {
        push_str(out, "<code>");
        push_chars(out, &self.content);
        push_str(out, "</code>");
        proof {
            assert(out@ =~= old(out)@ + tag_markup(self.content@));
        }
    }
}

/// The markup of an ordered list.
pub open spec fn ordered_list_markup(items: Seq<char>) -> Seq<char> {
    "<ol>\n"@ + items + "</ol>\n"@
}

/// An ordered list.
pub struct OrderedList {
    /// The rendered items.
    pub items: Vec<char>,
}

impl OrderedList {
    /// Appends the ordered list markup.
    pub fn render_into(&self, out: &mut Vec<char>)
        ensures
            final(out)@ == old(out)@ + ordered_list_markup(self.items@),
    {
        push_str(out, "<ol>\n");
        push_chars(out, &self.items);
        push_str(out, "</ol>\n");
        proof {
            assert(out@ =~= old(out)@ + ordered_list_markup(self.items@));
        }
    }
}

/// The markup of an unordered list.
pub open spec fn unordered_list_markup(items: Seq<char>) -> Seq<char> {
    "<ul>\n"@ + items + "</ul>\n"@
}

/// An unordered list.
pub struct UnorderedList {
    /// The rendered items.
    pub items: Vec<char>,
}

impl UnorderedList {
    /// Appends the unordered list markup.
    pub fn render_into(&self, out: &mut Vec<char>)
        ensures
            final(out)@ == old(out)@ + unordered_list_markup(self.items@),
    {
        push_str(out, "<ul>\n");
        push_chars(out, &self.items);
        push_str(out, "</ul>\n");
        proof {
            assert(out@ =~= old(out)@ + unordered_list_markup(self.items@));
        }
    }
}

/// The markup of a list item.
pub open spec fn list_item_markup(content: Seq<char>) -> Seq<char> {
    "<li>"@ + content + "</li>\n"@
}

/// One list item.
pub struct ListItem {
    /// The rendered inner content.
    pub content: Vec<char>,
}

impl ListItem {
    /// Appends the list item markup.
    pub fn render_into(&self, out: &mut Vec<char>)
        ensures
            final(out)@ == old(out)@ + list_item_markup(self.content@),
    {
        push_str(out, "<li>");
        push_chars(out, &self.content);
        push_str(out, "</li>\n");
        proof {
            assert(out@ =~= old(out)@ + list_item_markup(self.content@));
        }
    }
}

/// The markup of a numbered table with its caption.
pub open spec fn table_markup(number: nat, content: Seq<char>, description: Seq<char>) -> Seq<
    char,
> {
    "<table>\n"@ + content + "<caption>Table "@ + dec_rep(number) + ": "@ + description
        + "</caption>\n</table>\n"@
}

/// A numbered table.
pub struct Table {
    /// The table's sequential number within the document.
    pub number: usize,
    /// The rendered rows.
    pub content: Vec<char>,
    /// The pending description consumed by this table.
    pub description: Vec<char>,
}

impl Table {
    /// Appends the table markup.
    pub fn render_into(&self, out: &mut Vec<char>)
        ensures
            final(out)@ == old(out)@ + table_markup(
                self.number as nat,
                self.content@,
                self.description@,
            ),
    {
        push_str(out, "<table>\n");
        push_chars(out, &self.content);
        push_str(out, "<caption>Table ");
        push_number(out, self.number as u64);
        push_str(out, ": ");
        push_chars(out, &self.description);
        push_str(out, "</caption>\n</table>\n");
        proof {
            assert(out@ =~= old(out)@ + table_markup(
                self.number as nat,
                self.content@,
                self.description@,
            ));
        }
    }
}

/// The markup of a table head.
pub open spec fn table_head_markup(content: Seq<char>) -> Seq<char> {
    "<thead><tr>"@ + content + "</tr></thead>\n"@
}

/// A table head row.
pub struct TableHead {
    /// The rendered cells.
    pub content: Vec<char>,
}

impl TableHead {
    /// Appends the table head markup.
    pub fn render_into(&self, out: &mut Vec<char>)
        ensures
            final(out)@ == old(out)@ + table_head_markup(self.content@),
    {
        push_str(out, "<thead><tr>");
        push_chars(out, &self.content);
        push_str(out, "</tr></thead>\n");
        proof {
            assert(out@ =~= old(out)@ + table_head_markup(self.content@));
        }
    }
}

/// The markup of a table row.
pub open spec fn table_row_markup(content: Seq<char>) -> Seq<char> {
    "<tr>"@ + content + "</tr>\n"@
}

/// A table body row.
pub struct TableRow {
    /// The rendered cells.
    pub content: Vec<char>,
}

impl TableRow {
    /// Appends the table row markup.
    pub fn render_into(&self, out: &mut Vec<char>)
        ensures
            final(out)@ == old(out)@ + table_row_markup(self.content@),
    {
        push_str(out, "<tr>");
        push_chars(out, &self.content);
        push_str(out, "</tr>\n");
        proof {
            assert(out@ =~= old(out)@ + table_row_markup(self.content@));
        }
    }
}

/// The markup of a table cell.
pub open spec fn table_cell_markup(content: Seq<char>) -> Seq<char> {
    "<td>"@ + content + "</td>"@
}

/// A table cell.
pub struct TableCell {
    /// The rendered inner content.
    pub content: Vec<char>,
}

impl TableCell {
    /// Appends the table cell markup.
    pub fn render_into(&self, out: &mut Vec<char>)
        ensures
            final(out)@ == old(out)@ + table_cell_markup(self.content@),
    {
        push_str(out, "<td>");
        push_chars(out, &self.content);
        push_str(out, "</td>");
        proof {
            assert(out@ =~= old(out)@ + table_cell_markup(self.content@));
        }
    }
}

/// The markup of emphasized text.
pub open spec fn emphasis_markup(content: Seq<char>) -> Seq<char> {
    "<em>"@ + content + "</em>"@
}

/// Emphasized text.
pub struct Emphasis {
    /// The rendered inner content.
    pub content: Vec<char>,
}

impl Emphasis {
    /// Appends the emphasis markup.
    pub fn render_into(&self, out: &mut Vec<char>)
        ensures
            final(out)@ == old(out)@ + emphasis_markup(self.content@),
    {
        push_str(out, "<em>");
        push_chars(out, &self.content);
        push_str(out, "</em>");
        proof {
            assert(out@ =~= old(out)@ + emphasis_markup(self.content@));
        }
    }
}

/// The markup of strong text.
pub open spec fn bold_markup(content: Seq<char>) -> Seq<char> {
    "<strong>"@ + content + "</strong>"@
}

/// Strong text.
pub struct Bold {
    /// The rendered inner content.
    pub content: Vec<char>,
}

impl Bold {
    /// Appends the strong markup.
    pub fn render_into(&self, out: &mut Vec<char>)
        ensures
            final(out)@ == old(out)@ + bold_markup(self.content@),
    {
        push_str(out, "<strong>");
        push_chars(out, &self.content);
        push_str(out, "</strong>");
        proof {
            assert(out@ =~= old(out)@ + bold_markup(self.content@));
        }
    }
}

/// The markup of struck-through text.
pub open spec fn strikethrough_markup(content: Seq<char>) -> Seq<char> {
    "<del>"@ + content + "</del>"@
}

/// Struck-through text.
pub struct Strikethrough {
    /// The rendered inner content.
    pub content: Vec<char>,
}

impl Strikethrough {
    /// Appends the strikethrough markup.
    pub fn render_into(&self, out: &mut Vec<char>)
        ensures
            final(out)@ == old(out)@ + strikethrough_markup(self.content@),
    {
        push_str(out, "<del>");
        push_chars(out, &self.content);
        push_str(out, "</del>");
        proof {
            assert(out@ =~= old(out)@ + strikethrough_markup(self.content@));
        }
    }
}

/// The markup of a link: its URL is emitted unchanged.
pub open spec fn link_markup(url: Seq<char>, content: Seq<char>) -> Seq<char> {
    "<a href=\""@ + url + "\">"@ + content + "</a>"@
}

/// A link.
pub struct Link {
    /// The target URL, unchanged.
    pub url: Vec<char>,
    /// The rendered inner content.
    pub content: Vec<char>,
}

impl Link {
    /// Appends the link markup.
    pub fn render_into(&self, out: &mut Vec<char>)
        ensures
            final(out)@ == old(out)@ + link_markup(self.url@, self.content@),
    {
        push_str(out, "<a href=\"");
        push_chars(out, &self.url);
        push_str(out, "\">");
        push_chars(out, &self.content);
        push_str(out, "</a>");
        proof {
            assert(out@ =~= old(out)@ + link_markup(self.url@, self.content@));
        }
    }
}

/// The markup of a numbered figure. Inside a paragraph an inline
/// wrapper is used, since block markup may not nest there.
pub open spec fn figure_markup(
    number: nat,
    url: Seq<char>,
    description: Seq<char>,
    inside_p: bool,
) -> Seq<char> {
    if inside_p {
        "<span class=\"figure\"><img src=\""@ + url + "\">Figure "@ + dec_rep(number) + ": "@
            + description + "</span>"@
    } else {
        "<figure><img src=\""@ + url + "\"><figcaption>Figure "@ + dec_rep(number) + ": "@
            + description + "</figcaption></figure>\n"@
    }
}

/// A numbered figure.
pub struct Figure {
    /// The figure's sequential number within the document.
    pub number: usize,
    /// The emitted image URL.
    pub url: Vec<char>,
    /// The pending description consumed by this figure.
    pub description: Vec<char>,
    /// Whether the figure stands inside a paragraph.
    pub inside_p: bool,
}

impl Figure {
    /// Appends the figure markup.
    pub fn render_into(&self, out: &mut Vec<char>)
        ensures
            final(out)@ == old(out)@ + figure_markup(
                self.number as nat,
                self.url@,
                self.description@,
                self.inside_p,
            ),
    {
        if self.inside_p {
            push_str(out, "<span class=\"figure\"><img src=\"");
            push_chars(out, &self.url);
            push_str(out, "\">Figure ");
            push_number(out, self.number as u64);
            push_str(out, ": ");
            push_chars(out, &self.description);
            push_str(out, "</span>");
        } else {
            push_str(out, "<figure><img src=\"");
            push_chars(out, &self.url);
            push_str(out, "\"><figcaption>Figure ");
            push_number(out, self.number as u64);
            push_str(out, ": ");
            push_chars(out, &self.description);
            push_str(out, "</figcaption></figure>\n");
        }
        proof {
            assert(out@ =~= old(out)@ + figure_markup(
                self.number as nat,
                self.url@,
                self.description@,
                self.inside_p,
            ));
        }
    }
}

/// The markup of a hard line break.
pub open spec fn linebreak_markup() -> Seq<char> {
    "<br>\n"@
}

/// A hard line break.
pub struct Linebreak;

impl Linebreak {
    /// Appends the line break markup.
    pub fn render_into(&self, out: &mut Vec<char>)
        ensures
            final(out)@ == old(out)@ + linebreak_markup(),
    {
        push_str(out, "<br>\n");
    }
}

/// The markup of an explicit vertical space.
pub open spec fn blank_line_markup() -> Seq<char> {
    "<div class=\"blank-line\"></div>\n"@
}

/// An explicit vertical space.
pub struct BlankLine;

impl BlankLine {
    /// Appends the vertical space markup.
    pub fn render_into(&self, out: &mut Vec<char>)
        ensures
            final(out)@ == old(out)@ + blank_line_markup(),
    {
        push_str(out, "<div class=\"blank-line\"></div>\n");
    }
}

/// The first `i` citation numbers joined with commas.
pub open spec fn ids_to(ids: Seq<usize>, i: int) -> Seq<char>
    decreases i,
{
    if i <= 0 {
        Seq::empty()
    } else if i == 1 {
        dec_rep(ids[0] as nat)
    } else {
        ids_to(ids, i - 1) + ","@ + dec_rep(ids[i - 1] as nat)
    }
}

/// The markup of an inline citation marker listing resolved numbers.
pub open spec fn citation_markup(ids: Seq<usize>) -> Seq<char> {
    "<sup>["@ + ids_to(ids, ids.len() as int) + "]</sup>"@
}

/// An inline citation marker.
pub struct Citation {
    /// The resolved citation numbers, in the order cited.
    pub ids: Vec<usize>,
}

impl Citation {
    /// Appends the citation marker markup.
    pub fn render_into(&self, out: &mut Vec<char>)
        ensures
            final(out)@ == old(out)@ + citation_markup(self.ids@),
    {
        push_str(out, "<sup>[");
        let mut i: usize = 0;
        let ghost head = out@;

        while i < self.ids.len()
            invariant
                i <= self.ids.len(),
                out@ == head + ids_to(self.ids@, i as int),
            decreases self.ids.len() - i,
        {
            if i > 0 {
                push_str(out, ",");
            }
            push_number(out, self.ids[i] as u64);
            i += 1;
        }

        push_str(out, "]</sup>");
        proof {
            assert(out@ =~= old(out)@ + citation_markup(self.ids@));
        }
    }
}

/// The markup of one bibliography entry.
pub open spec fn bib_entry_markup(id: nat, content: Seq<char>) -> Seq<char> {
    "<p id=\"ref-"@ + dec_rep(id) + "\">["@ + dec_rep(id) + "] "@ + content + "</p>\n"@
}

/// The first `i` bibliography entries.
pub open spec fn bib_entries_to(refs: Seq<(usize, Seq<char>)>, i: int) -> Seq<char>
    decreases i,
{
    if i <= 0 {
        Seq::empty()
    } else {
        bib_entries_to(refs, i - 1) + bib_entry_markup(refs[i - 1].0 as nat, refs[i - 1].1)
    }
}

/// The views of the collected bibliography entries.
pub open spec fn bib_views(refs: Seq<(usize, Vec<char>)>) -> Seq<(usize, Seq<char>)> {
    refs.map_values(|r: (usize, Vec<char>)| (r.0, r.1@))
}

/// The markup of the whole bibliography block.
pub open spec fn bibliography_markup(refs: Seq<(usize, Seq<char>)>) -> Seq<char> {
    "<div class=\"bibliography\">\n"@ + bib_entries_to(refs, refs.len() as int) + "</div>\n"@
}

/// The bibliography block.
pub struct Bibliography {
    /// The entries, each a resolved number and its rendered content,
    /// sorted by number.
    pub references: Vec<(usize, Vec<char>)>,
}

impl Bibliography {
    /// Appends the bibliography markup.
    pub fn render_into(&self, out: &mut Vec<char>)
        ensures
            final(out)@ == old(out)@ + bibliography_markup(bib_views(self.references@)),
    {
        push_str(out, "<div class=\"bibliography\">\n");
        let mut i: usize = 0;
        let ghost head = out@;

        while i < self.references.len()
            invariant
                i <= self.references.len(),
                out@ == head + bib_entries_to(bib_views(self.references@), i as int),
            decreases self.references.len() - i,
        {
            let ghost pre = out@;
            push_str(out, "<p id=\"ref-");
            push_number(out, self.references[i].0 as u64);
            push_str(out, "\">[");
            push_number(out, self.references[i].0 as u64);
            push_str(out, "] ");
            push_chars(out, &self.references[i].1);
            push_str(out, "</p>\n");
            proof {
                let r = bib_views(self.references@)[i as int];
                assert(r.0 == self.references@[i as int].0);
                assert(r.1 == self.references@[i as int].1@);
                assert(out@ =~= pre + bib_entry_markup(r.0 as nat, r.1));
                assert(out@ =~= head + bib_entries_to(bib_views(self.references@), i + 1));
            }
            i += 1;
        }

        push_str(out, "</div>\n");
        proof {
            assert(out@ =~= old(out)@ + bibliography_markup(bib_views(self.references@)));
        }
    }
}

/// The script inclusions for the first `i` code languages.
pub open spec fn scripts_to(langs: Seq<Seq<char>>, i: int) -> Seq<char>
    decreases i,
{
    if i <= 0 {
        Seq::empty()
    } else {
        scripts_to(langs, i - 1) + "<script src=\"/js/hljs/"@ + langs[i - 1]
            + ".min.js\"></script>\n"@
    }
}

/// The markup of the page head of a document: its title, keywords,
/// canonical URL, and one script inclusion per code language used.
pub open spec fn post_header_markup(
    title: Seq<char>,
    uses_code: bool,
    languages: Seq<Seq<char>>,
    keywords: Seq<char>,
    url: Seq<char>,
) -> Seq<char> {
    "<!DOCTYPE html>\n<html>\n<head>\n<title>"@ + title
        + "</title>\n<meta name=\"keywords\" content=\""@ + keywords
        + "\">\n<link rel=\"canonical\" href=\""@ + url + "\">\n"@ + (if uses_code {
        scripts_to(languages, languages.len() as int)
    } else {
        Seq::empty()
    }) + "</head>\n<body>\n"@
}

/// The page head of a document.
pub struct PostHeader {
    /// The document title.
    pub title: Vec<char>,
    /// Whether any code was rendered.
    pub uses_code: bool,
    /// The distinct code languages used, in order of first use.
    pub languages: Vec<Vec<char>>,
    /// The comma-joined category list.
    pub keywords: Vec<char>,
    /// The document URL.
    pub url: Vec<char>,
}

impl PostHeader {
    /// Appends the page head markup.
    pub fn render_into(&self, out: &mut Vec<char>)
        ensures
            final(out)@ == old(out)@ + post_header_markup(
                self.title@,
                self.uses_code,
                views_of(self.languages),
                self.keywords@,
                self.url@,
            ),
    {
        push_str(out, "<!DOCTYPE html>\n<html>\n<head>\n<title>");
        push_chars(out, &self.title);
        push_str(out, "</title>\n<meta name=\"keywords\" content=\"");
        push_chars(out, &self.keywords);
        push_str(out, "\">\n<link rel=\"canonical\" href=\"");
        push_chars(out, &self.url);
        push_str(out, "\">\n");

        if self.uses_code {
            let mut i: usize = 0;
            let ghost head = out@;

            while i < self.languages.len()
                invariant
                    i <= self.languages.len(),
                    out@ == head + scripts_to(views_of(self.languages), i as int),
                decreases self.languages.len() - i,
            {
                let ghost pre = out@;
                push_str(out, "<script src=\"/js/hljs/");
                push_chars(out, &self.languages[i]);
                push_str(out, ".min.js\"></script>\n");
                proof {
                    assert(views_of(self.languages)[i as int] == self.languages@[i as int]@);
                    assert(out@ =~= head + scripts_to(views_of(self.languages), i + 1));
                }
                i += 1;
            }
        }

        push_str(out, "</head>\n<body>\n");
        proof {
            assert(out@ =~= old(out)@ + post_header_markup(
                self.title@,
                self.uses_code,
                views_of(self.languages),
                self.keywords@,
                self.url@,
            ));
        }
    }
}

/// The markup of the page foot of a document.
pub open spec fn post_footer_markup() -> Seq<char> {
    "</body>\n</html>\n"@
}

/// The page foot of a document.
pub struct PostFooter;

impl PostFooter {
    /// Appends the page foot markup.
    pub fn render_into(&self, out: &mut Vec<char>)
        ensures
            final(out)@ == old(out)@ + post_footer_markup(),
    {
        push_str(out, "</body>\n</html>\n");
    }
}

/// The markup of the document headline.
pub open spec fn headline_markup(headline: Seq<char>) -> Seq<char> {
    "<h1>"@ + headline + "</h1>\n"@
}

/// The document headline.
pub struct Headline {
    /// The title text.
    pub headline: Vec<char>,
}

impl Headline {
    /// Appends the headline markup.
    pub fn render_into(&self, out: &mut Vec<char>)
        ensures
            final(out)@ == old(out)@ + headline_markup(self.headline@),
    {
        push_str(out, "<h1>");
        push_chars(out, &self.headline);
        push_str(out, "</h1>\n");
        proof {
            assert(out@ =~= old(out)@ + headline_markup(self.headline@));
        }
    }
}

/// The markup of the category and date line under the headline.
pub open spec fn categories_markup(
    categories: Seq<Seq<char>>,
    day: nat,
    month: Seq<char>,
    year: nat,
) -> Seq<char> {
    "<p class=\"meta\">"@ + crate::text::dec_pad(day, 2) + " "@ + month + " "@ + dec_rep(year)
        + " | "@ + join_all(categories, ", "@) + "</p>\n"@
}

/// The category and date line under the headline.
pub struct Categories {
    /// The category list.
    pub categories: Vec<String>,
    /// The day of the month.
    pub day: u8,
    /// The abbreviated month name.
    pub month: Vec<char>,
    /// The year.
    pub year: u16,
}

impl Categories {
    /// Appends the category line markup.
    pub fn render_into(&self, out: &mut Vec<char>)
        ensures
            final(out)@ == old(out)@ + categories_markup(
                str_views_of(self.categories),
                self.day as nat,
                self.month@,
                self.year as nat,
            ),
    {
        push_str(out, "<p class=\"meta\">");
        crate::text::push_pad2(out, self.day);
        push_str(out, " ");
        push_chars(out, &self.month);
        push_str(out, " ");
        push_number(out, self.year as u64);
        push_str(out, " | ");
        push_join_strs(out, &self.categories, ", ");
        push_str(out, "</p>\n");
        proof {
            assert(out@ =~= old(out)@ + categories_markup(
                str_views_of(self.categories),
                self.day as nat,
                self.month@,
                self.year as nat,
            ));
        }
    }
}

/// The markup of the page shown for a missing resource.
pub open spec fn status404_markup() -> Seq<char> {
    "<!DOCTYPE html>\n<html>\n<head>\n<title>404</title>\n</head>\n<body>\n<h1>404 - not found</h1>\n</body>\n</html>\n"@
}

/// The page shown for a missing resource.
pub struct Status404;

impl Status404 {
    /// Appends the page markup.
    pub fn render_into(&self, out: &mut Vec<char>)
        ensures
            final(out)@ == old(out)@ + status404_markup(),
    {
        push_str(
            out,
            "<!DOCTYPE html>\n<html>\n<head>\n<title>404</title>\n</head>\n<body>\n<h1>404 - not found</h1>\n</body>\n</html>\n",
        );
    }
}

} // verus!

use sitegen::markdown::{ElementTag, Token};
use sitegen::renderer::{RenderError, Renderer};

fn chars(s: &str) -> Vec<char> {
    s.chars().collect()
}

fn body(doc: &str) -> String {
    let mut r = Renderer::new();
    r.render_body(doc.as_bytes(), "").unwrap()
}

#[test]
fn citation_and_bibliography() {
    let doc = b"date: 01-02-1970\ncategories: a\n\n# T\n\nHello <cite>x</cite>\n\n---\n\n<ref id=\"x\">Ref text</ref>\n"
        .to_vec();
    let post = sitegen::post::Post::new(doc).unwrap();
    let mut r = Renderer::new();
    let out = r.render_body(post.content(), "").unwrap();
    assert!(out.contains("Hello "));
    assert!(out.contains("<sup>[1]</sup>"));
    assert!(out.contains("<p id=\"ref-1\">[1] Ref text</p>"));
}

#[test]
fn unreferenced_citation_fails_without_bibliography() {
    // Scenario A, omission half: citing a key and ending the document
    // without any bibliography fails naming that key.
    let mut r = Renderer::new();
    let err = r.render_body(b"Hello <cite>x</cite>\n", "").unwrap_err();
    match err {
        RenderError::MissingEntry(key) => assert_eq!(key, chars("x")),
        other => panic!("unexpected error: {}", other.message()),
    }

    // The same with the rule kept but no reference paragraph.
    let mut r = Renderer::new();
    let err = r
        .render_body(b"Hello <cite>x</cite>\n\n---\n", "")
        .unwrap_err();
    match err {
        RenderError::MissingEntry(key) => assert_eq!(key, chars("x")),
        other => panic!("unexpected error: {}", other.message()),
    }
}

#[test]
fn surplus_bibliography_entry_fails() {
    let mut r = Renderer::new();
    let err = r
        .render_body(
            b"Hello <cite>x</cite>\n\n---\n\n<ref id=\"x\">One</ref>\n<ref id=\"x\">Two</ref>\n",
            "",
        )
        .unwrap_err();
    match err {
        RenderError::DuplicateEntry(key) => assert_eq!(key, chars("x")),
        other => panic!("unexpected error: {}", other.message()),
    }
}

#[test]
fn error_messages_name_the_offender() {
    let err = RenderError::MissingEntry(chars("x"));
    assert_eq!(err.message(), "Bibliography entry for 'x' is missing");
    let err = RenderError::DuplicateEntry(chars("x"));
    assert_eq!(err.message(), "Bibliography has more than one entry for 'x'");
    let err = RenderError::InvalidHtml(chars("<zap>"));
    assert_eq!(err.message(), "Invalid html tag: <zap>");
    let err = RenderError::UnknownRefId(chars("k"));
    assert_eq!(
        err.message(),
        "Bibliography entry with id 'k' is never referenced"
    );
}

#[test]
fn missing_bibliography_entry_names_key() {
    let mut r = Renderer::new();
    let err = r
        .render_body(
            b"Hello <cite>x</cite> and <cite>y</cite>\n\n---\n\n<ref id=\"y\">Only y</ref>\n",
            "",
        )
        .unwrap_err();
    match err {
        RenderError::MissingEntry(key) => assert_eq!(key, chars("x")),
        other => panic!("unexpected error: {}", other.message()),
    }
}

#[test]
fn citation_numbers_follow_first_use() {
    let out = body(
        "A <cite>x, y</cite> B <cite>y x</cite>\n\n---\n\n<ref id=\"x\">One</ref>\n<ref id=\"y\">Two</ref>\n",
    );
    assert!(out.contains("<sup>[1,2]</sup>"));
    assert!(out.contains("<sup>[2,1]</sup>"));
    assert!(out.contains("<p id=\"ref-1\">[1] One</p>"));
    assert!(out.contains("<p id=\"ref-2\">[2] Two</p>"));
}

#[test]
fn heading_levels() {
    let mut r = Renderer::new();
    let err = r.render_body(b"### Sub\n", "").unwrap_err();
    assert!(matches!(err, RenderError::InvalidHeading));

    let out = body("## Sub Heading\n");
    assert!(out.contains("<h2 id=\"sub-heading\">Sub Heading</h2>"));
}

#[test]
fn missing_image_keeps_url() {
    let mut r = Renderer::new();
    let out = r
        .render_body(b"![alt](missing.png)\n", ".")
        .unwrap();
    assert!(out.contains("src=\"missing.png\""));
    assert!(r.file_mentions().is_empty());
}

#[test]
fn existing_link_is_mentioned() {
    let mut r = Renderer::new();
    let events = vec![
        Token::Start(ElementTag::Link { url: chars("notes.txt") }),
        Token::Text(chars("notes")),
        Token::End { paragraph: false },
        Token::Start(ElementTag::Image { url: chars("pic.png") }),
        Token::End { paragraph: false },
    ];
    let exists = vec![true, false, false, true, false];
    let out = r.render_events(&events, &exists).unwrap();
    assert!(out.contains("<a href=\"notes.txt\">notes</a>"));
    assert!(out.contains("src=\"pic.webp\""));
    assert_eq!(r.file_mentions().len(), 2);
    assert_eq!(r.file_mentions()[0], chars("notes.txt"));
    assert_eq!(r.file_mentions()[1], chars("pic.png"));
}

#[test]
fn blank_input_renders_nothing() {
    let out = body("\n\n\n");
    assert_eq!(out, "");
}

#[test]
fn empty_paragraph_is_elided() {
    let mut r = Renderer::new();
    let events = vec![
        Token::Start(ElementTag::Paragraph),
        Token::End { paragraph: true },
    ];
    let exists = vec![false, false];
    let out = r.render_events(&events, &exists).unwrap();
    assert_eq!(out, "");
}

#[test]
fn table_numbers_are_sequential() {
    let mut r = Renderer::new();
    let events = vec![
        Token::Start(ElementTag::Table),
        Token::End { paragraph: false },
        Token::Start(ElementTag::Table),
        Token::End { paragraph: false },
    ];
    let exists = vec![false; 4];
    let out = r.render_events(&events, &exists).unwrap();
    assert!(out.contains("Table 1: "));
    assert!(out.contains("Table 2: "));
}

#[test]
fn figure_numbers_are_sequential() {
    let out = body("![a](x.png)\n\n![b](y.png)\n");
    assert!(out.contains("Figure 1: "));
    assert!(out.contains("Figure 2: "));
}

#[test]
fn table_title_directive_sets_description() {
    let mut r = Renderer::new();
    let events = vec![
        Token::InlineHtml(chars("<table-title>")),
        Token::Text(chars("Numbers")),
        Token::InlineHtml(chars("</table-title>")),
        Token::Start(ElementTag::Table),
        Token::End { paragraph: false },
    ];
    let exists = vec![false; 5];
    let out = r.render_events(&events, &exists).unwrap();
    assert!(out.contains("<caption>Table 1: Numbers</caption>"));
}

#[test]
fn code_blocks_collect_languages() {
    let mut r = Renderer::new();
    let out = r
        .render_body(b"```RuSt\nfn f() {}\n```\n\n```\nplain\n```\n", "")
        .unwrap();
    assert!(out.contains("language-rust"));
    assert!(out.contains("language-plaintext"));
    let langs = r.languages_used();
    assert_eq!(langs.len(), 2);
    assert_eq!(langs[0], chars("rust"));
    assert_eq!(langs[1], chars("plaintext"));
}

#[test]
fn invalid_directive_is_rejected() {
    let mut r = Renderer::new();
    let err = r.render_body(b"text <marquee>zap</marquee>\n", "").unwrap_err();
    match err {
        RenderError::InvalidInlineHtml(tag) => assert_eq!(tag, chars("<marquee>")),
        other => panic!("unexpected error: {}", other.message()),
    }
}

#[test]
fn blank_line_directive() {
    let out = body("a\n\n<blank-line/>\n\nb\n");
    assert!(out.contains("<div class=\"blank-line\"></div>"));
}

#[test]
fn non_utf8_is_rejected() {
    let mut r = Renderer::new();
    let err = r.render_body(&[0xff, 0xfe], "").unwrap_err();
    assert!(matches!(err, RenderError::NonUtf8));
}

#[test]
fn rendering_is_deterministic() {
    let doc = "## Head\n\nText with <cite>k</cite>\n\n---\n\n<ref id=\"k\">Entry</ref>\n";
    let first = body(doc);
    let second = body(doc);
    assert_eq!(first, second);
    assert!(!first.is_empty());
}

#[test]
fn markup_structure() {
    let out = body("*em* **strong** ~~gone~~ `code`\n\n> quote\n\n- one\n- two\n\n1. first\n");
    assert!(out.contains("<em>em</em>"));
    assert!(out.contains("<strong>strong</strong>"));
    assert!(out.contains("<del>gone</del>"));
    assert!(out.contains("<code>code</code>"));
    assert!(out.contains("<blockquote>"));
    assert!(out.contains("<ul>\n<li>one</li>"));
    assert!(out.contains("<ol>\n<li>first</li>"));
}

#[test]
fn header_and_footer() {
    let data =
        b"date: 01-02-1970\ncategories: a, b\n\n# My Post\n\nSome body text.\n".to_vec();
    let post = sitegen::post::Post::new(data).unwrap();
    let mut r = Renderer::new();
    let rendered = r.render_body(post.content(), "").unwrap();
    assert!(rendered.contains("Some body text."));
    let header = r.render_header(&post);
    assert!(header.contains("<title>My Post</title>"));
    assert!(header.contains("content=\"a, b\""));
    assert!(header.contains("<h1>My Post</h1>"));
    assert!(header.contains("01 feb. 1970 | a, b"));
    let footer = r.render_footer();
    assert_eq!(footer, "</body>\n</html>\n");
}

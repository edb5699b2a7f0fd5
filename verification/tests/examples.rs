use sitegen::post::Post;
use sitegen::renderer::Renderer;

fn example_document() -> Vec<u8> {
    let mut doc = String::new();
    doc.push_str("date: 01-02-1970\ncategories: demo, text\n\n# Example\n\n");
    doc.push_str("An opening paragraph with *emphasis*, **bold text**, ");
    doc.push_str("~~something struck~~ and `inline code`.\n\n");
    doc.push_str("## A Section\n\n");
    doc.push_str("> A quoted thought.\n\n");
    doc.push_str("- first item\n- second item\n\n");
    doc.push_str("1. ordered one\n2. ordered two\n\n");
    doc.push_str("```rust\nfn main() {}\n```\n\n");
    doc.push_str("<table-title>Some numbers</table-title>\n\n");
    doc.push_str("| a | b |\n|---|---|\n| 1 | 2 |\n\n");
    doc.push_str("A claim with a source <cite>src</cite>.\n\n");
    doc.push_str("![diagram](missing-diagram.png)\n\n");
    doc.push_str("---\n\n");
    doc.push_str("<ref id=\"src\">The source text</ref>\n");
    doc.into_bytes()
}

#[test]
fn render_example() {
    let post = Post::new(example_document()).unwrap();
    let mut renderer = Renderer::new();
    let output = renderer.render_body(post.content(), "missing-dir").unwrap();
    println!("{output}");
    assert!(output.contains("<h2 id=\"a-section\">A Section</h2>"));
    assert!(output.contains("<caption>Table 1: Some numbers</caption>"));
    assert!(output.contains("<sup>[1]</sup>"));
    assert!(output.contains("Figure 1: "));
    assert!(output.contains("<p id=\"ref-1\">[1] The source text</p>"));
}

#[test]
fn print_mirror() {
    let post = Post::new(
        b"date: 01-02-1970\ncategories: a\nmirror: https://example.org/mirrored\n\n# Mirrored\n"
            .to_vec(),
    )
    .unwrap();
    println!("{post:#?}");
    assert!(post.filename().is_none());
}

#[test]
fn print_title() {
    let post =
        Post::new(b"date: 01-02-1970\ncategories: a\n\n# A Title\n\nThe content.\n".to_vec())
            .unwrap();
    println!("{post:#?}");
    println!("{:?}", post.content());
    assert_eq!(post.metadata().title(), "A Title");
}

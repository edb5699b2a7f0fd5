use sitegen::cache::{CacheEntry, Dependency};
use sitegen::metadata::{PostDate, PostMetadata};
use sitegen::pages::{max_post_date, render_404, render_archive, render_feed, render_index};

fn entry(title: &str, url: &str, date: PostDate) -> CacheEntry {
    CacheEntry {
        dependencies: vec![Dependency {
            input: format!("in/{}.md", title),
            output: format!("out/{}.html", title),
        }],
        metadata: PostMetadata {
            title: title.to_string(),
            date,
            categories: vec!["a".to_string()],
            mirror: None,
            startpage: false,
            start_content: 0,
        },
        url: url.to_string(),
    }
}

#[test]
fn feed_updated_is_latest_date() {
    let entries = vec![
        entry(
            "old",
            "/2020/jan./01/old.html",
            PostDate { year: 2020, month: 1, day: 1 },
        ),
        entry(
            "new",
            "/2021/jun./15/new.html",
            PostDate { year: 2021, month: 6, day: 15 },
        ),
    ];
    let feed = render_feed(&entries);
    assert!(feed.contains("<updated>2021-06-15T00:00:00Z</updated>"));
    assert!(feed.contains("<title>old</title>"));
    assert!(feed.contains("<published>2020-01-01T00:00:00Z</published>"));
    assert!(feed.contains("<category term=\"a\"/>"));
}

#[test]
fn empty_feed_is_empty() {
    let entries: Vec<CacheEntry> = Vec::new();
    assert_eq!(render_feed(&entries), "");
}

#[test]
fn max_date_prefers_later() {
    let entries = vec![
        entry("a", "/a", PostDate { year: 2021, month: 6, day: 15 }),
        entry("b", "/b", PostDate { year: 2020, month: 1, day: 1 }),
    ];
    assert_eq!(
        max_post_date(&entries),
        PostDate { year: 2021, month: 6, day: 15 }
    );
    let none: Vec<CacheEntry> = Vec::new();
    assert_eq!(max_post_date(&none), PostDate { year: 0, month: 0, day: 0 });
}

#[test]
fn index_and_archive_pages() {
    let entries = vec![entry(
        "hello",
        "/2020/jan./02/hello.html",
        PostDate { year: 2020, month: 1, day: 2 },
    )];
    let index = render_index(&entries);
    assert!(index.contains("<a href=\"/2020/jan./02/hello.html\">hello</a>"));
    let archive = render_archive(&entries);
    assert!(archive.contains("2020-01-02 <a href=\"/2020/jan./02/hello.html\">hello</a>"));
}

#[test]
fn missing_resource_page() {
    let page = render_404();
    assert!(page.contains("<title>404</title>"));
}

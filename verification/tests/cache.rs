use sitegen::cache::PostCache;
use sitegen::markdown::{ElementTag, Token};
use sitegen::metadata::PostDate;
use sitegen::post::Post;
use sitegen::renderer::Renderer;

fn sample_post() -> Post {
    let data =
        b"date: 01-02-1970\ncategories: a\n\n# Title\n\nHello [f](asset.css) there.\n".to_vec();
    Post::new(data).unwrap()
}

#[test]
fn post_paths() {
    let post = sample_post();
    assert_eq!(post.url(), "/1970/feb./01/title.html");
    assert_eq!(post.filename(), Some("1970/feb./01/title.html"));
}

#[test]
fn headless_post() {
    let data = b"date: 01-02-1970\ncategories: a\nmirror: https://example.org/p\n\n# Title\n"
        .to_vec();
    let post = Post::new(data).unwrap();
    assert_eq!(post.url(), "https://example.org/p");
    assert_eq!(post.filename(), None);
}

#[test]
fn insert_builds_dependencies() {
    let post = sample_post();
    let mut renderer = Renderer::new();
    renderer
        .render_body(post.content(), "missing-dir")
        .unwrap();
    let mut cache = PostCache::new();
    let changed = cache.insert(
        "in",
        "in/post.md",
        "out",
        "out/post.html",
        &post,
        &renderer,
    );
    assert!(changed);
    let entry = cache.get("in/post.md").unwrap();
    assert_eq!(entry.dependencies().len(), 1);
    assert_eq!(entry.dependencies()[0].input(), "in/post.md");
    assert_eq!(entry.dependencies()[0].output(), "out/post.html");
    assert_eq!(entry.url(), "/1970/feb./01/title.html");
    assert_eq!(entry.metadata().date(), &PostDate { year: 1970, month: 2, day: 1 });
}

#[test]
fn insert_twice_reports_no_change() {
    let post = sample_post();
    let mut renderer = Renderer::new();
    renderer.render_body(post.content(), "missing-dir").unwrap();
    let mut cache = PostCache::new();
    let first = cache.insert("in", "in/post.md", "out", "out/post.html", &post, &renderer);
    let second = cache.insert("in", "in/post.md", "out", "out/post.html", &post, &renderer);
    assert!(first);
    assert!(!second);
    assert_eq!(cache.resources().len(), 1);
}

#[test]
fn insert_detects_changes() {
    let post = sample_post();
    let mut renderer = Renderer::new();
    renderer.render_body(post.content(), "missing-dir").unwrap();
    let mut cache = PostCache::new();
    assert!(cache.insert("in", "in/post.md", "out", "out/post.html", &post, &renderer));
    assert!(cache.insert("in", "in/post.md", "out2", "out2/post.html", &post, &renderer));
    assert_eq!(cache.resources().len(), 1);
    let entry = cache.get("in/post.md").unwrap();
    assert_eq!(entry.dependencies()[0].output(), "out2/post.html");
}

#[test]
fn mentions_become_dependencies() {
    let data = b"date: 01-02-1970\ncategories: a\n\n# T\n\nbody\n".to_vec();
    let post = Post::new(data).unwrap();
    let mut renderer = Renderer::new();
    let events = vec![
        Token::Start(ElementTag::Image { url: "img.png".chars().collect() }),
        Token::End { paragraph: false },
    ];
    let exists = vec![true, false];
    renderer.render_events(&events, &exists).unwrap();
    let mut cache = PostCache::new();
    cache.insert("in", "in/p.md", "out", "out/p.html", &post, &renderer);
    let entry = cache.get("in/p.md").unwrap();
    assert_eq!(entry.dependencies().len(), 2);
    assert_eq!(entry.dependencies()[1].input(), "in/img.png");
    assert_eq!(entry.dependencies()[1].output(), "out/img.webp");
}

#[test]
fn clear_and_get() {
    let post = sample_post();
    let mut renderer = Renderer::new();
    renderer.render_body(post.content(), "missing-dir").unwrap();
    let mut cache = PostCache::new();
    cache.insert("in", "in/post.md", "out", "out/post.html", &post, &renderer);
    assert!(cache.get("in/post.md").is_some());
    assert!(cache.get("other.md").is_none());
    cache.clear();
    assert!(cache.get("in/post.md").is_none());
    assert_eq!(cache.resources().len(), 0);
}

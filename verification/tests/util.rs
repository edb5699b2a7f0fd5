use sitegen::parser::{bytes_equal, convert_number, is_numerical, split_once, trim_whitespaces};
use sitegen::text::{make_id, push_number, push_pad2, push_pad4, str_equal, to_chars};
use sitegen::transformer::{
    is_css, is_html, is_image, is_js, join_path, transform_filename, transform_image_filename,
};

fn chars(s: &str) -> Vec<char> {
    s.chars().collect()
}

#[test]
fn trim_behaviour() {
    assert_eq!(trim_whitespaces(b"  abc  "), b"abc");
    assert_eq!(trim_whitespaces(b"abc"), b"abc");
    assert_eq!(trim_whitespaces(b"   "), b"");
    assert_eq!(trim_whitespaces(b" a b "), b"a b");
}

#[test]
fn split_once_behaviour() {
    assert_eq!(split_once(b"key:value", b':'), (&b"key"[..], &b"value"[..]));
    assert_eq!(split_once(b"novalue", b':'), (&b"novalue"[..], &b""[..]));
    assert_eq!(split_once(b"trail:", b':'), (&b"trail"[..], &b""[..]));
    assert_eq!(split_once(b"a:b:c", b':'), (&b"a"[..], &b"b:c"[..]));
}

#[test]
fn numbers() {
    assert!(is_numerical(b"0123"));
    assert!(!is_numerical(b"12a"));
    assert_eq!(convert_number(b"1970"), 1970);
    assert_eq!(convert_number(b"007"), 7);
    assert_eq!(convert_number(b"0000001970"), 1970);
    assert_eq!(convert_number(b""), 0);
    assert!(bytes_equal(b"abc", b"abc"));
    assert!(!bytes_equal(b"abc", b"abd"));
    assert!(str_equal("abc", "abc"));
    assert!(!str_equal("abc", "ab"));
}

#[test]
fn identifier_slugs() {
    assert_eq!(make_id(&chars("Hello World")), chars("hello-world"));
    assert_eq!(make_id(&chars("A  B")), chars("a-b"));
    assert_eq!(make_id(&chars("C++ rocks")), chars("c-rocks"));
    assert_eq!(make_id(&chars("123")), chars("123"));
    assert_eq!(make_id(&chars("")), chars(""));
}

#[test]
fn decimal_formatting() {
    let mut out: Vec<char> = Vec::new();
    push_number(&mut out, 0);
    push_number(&mut out, 1234);
    assert_eq!(out, chars("01234"));

    let mut out: Vec<char> = Vec::new();
    push_pad2(&mut out, 7);
    push_pad2(&mut out, 42);
    assert_eq!(out, chars("0742"));

    let mut out: Vec<char> = Vec::new();
    push_pad4(&mut out, 3);
    push_pad4(&mut out, 2026);
    assert_eq!(out, chars("00032026"));
}

#[test]
fn asset_classification() {
    assert!(is_image(&chars("photo.jpg")));
    assert!(is_image(&chars("dir/photo.PNG")));
    assert!(!is_image(&chars("photo.txt")));
    assert!(!is_image(&chars(".jpg")));
    assert!(is_css(&chars("style.css")));
    assert!(!is_css(&chars("style.min.css")));
    assert!(is_js(&chars("app.js")));
    assert!(!is_js(&chars("app.min.js")));
    assert!(is_html(&chars("page.html")));
    assert!(!is_html(&chars("page.htm")));
}

#[test]
fn asset_renaming() {
    assert_eq!(transform_filename(&chars("photo.jpg")), chars("photo.webp"));
    assert_eq!(
        transform_filename(&chars("style.css")),
        chars("style.min.css")
    );
    assert_eq!(transform_filename(&chars("app.js")), chars("app.min.js"));
    assert_eq!(transform_filename(&chars("notes.txt")), chars("notes.txt"));
    assert_eq!(
        transform_filename(&chars("style.min.css")),
        chars("style.min.css")
    );
    assert_eq!(
        transform_image_filename(&chars("a/b.tar.gif")),
        chars("a/b.tar.webp")
    );
}

#[test]
fn path_joining() {
    assert_eq!(join_path("base", &chars("x.md")), chars("base/x.md"));
    assert_eq!(join_path("", &chars("x.md")), chars("x.md"));
    assert_eq!(join_path("base", &chars("/abs.md")), chars("/abs.md"));
}

#[test]
fn staleness_law_cases() {
    assert!(sitegen::fs::is_newer(5, None));
    assert!(sitegen::fs::is_newer(5, Some(4)));
    assert!(!sitegen::fs::is_newer(5, Some(5)));
    assert!(!sitegen::fs::is_newer(5, Some(6)));
}

#[test]
fn minimizer_buffer() {
    let mut m = sitegen::mini::HtmlMinimizer::new();
    m.append_string("<p>");
    m.append_string("x</p>");
    assert_eq!(m.into_inner(), chars("<p>x</p>"));
}

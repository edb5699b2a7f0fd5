//! The asset filename rules: which files the asset pipeline rewrites,
//! and what each rewritten file is called.

use vstd::prelude::*;

verus! {

use crate::text::push_str;
use crate::templates::push_chars;

/// The index of the last path separator, or minus one if there is none.
pub open spec fn last_sep(s: Seq<char>) -> int
    decreases s.len(),
{
    if s.len() == 0 {
        -1
    } else if s.last() == '/' {
        s.len() - 1
    } else {
        last_sep(s.drop_last())
    }
}

/// Where the file name begins: right after the last path separator.
pub open spec fn name_start(s: Seq<char>) -> int {
    last_sep(s) + 1
}

/// The index of the last dot that separates an extension: the last dot
/// strictly after the first character of the file name. Minus one when
/// the path has no extension.
pub open spec fn ext_dot_after(s: Seq<char>, lo: int) -> int
    decreases s.len(),
{
    if s.len() == 0 {
        -1
    } else if s.last() == '.' && s.len() - 1 > lo {
        s.len() - 1
    } else {
        ext_dot_after(s.drop_last(), lo)
    }
}

/// The index of the dot before the path's extension, or minus one.
pub open spec fn ext_dot(s: Seq<char>) -> int {
    ext_dot_after(s, name_start(s))
}

/// The path's extension: what follows the dot. Empty when there is no
/// extension at all.
pub open spec fn extension_of(s: Seq<char>) -> Seq<char> {
    if ext_dot(s) >= 0 {
        s.subrange(ext_dot(s) + 1, s.len() as int)
    } else {
        Seq::empty()
    }
}

/// The path with its extension replaced: everything up to and
/// including the dot, then the new extension; a path without an
/// extension gets a dot and the extension appended.
pub open spec fn with_extension(s: Seq<char>, ext: Seq<char>) -> Seq<char> {
    if ext_dot(s) >= 0 {
        s.subrange(0, ext_dot(s) + 1) + ext
    } else {
        s + "."@ + ext
    }
}

/// Whether the path names an image, by extension.
pub open spec fn is_image_spec(s: Seq<char>) -> bool {
    ext_dot(s) >= 0 && (extension_of(s) == "jpg"@ || extension_of(s) == "JPG"@ || extension_of(
        s,
    ) == "jpeg"@ || extension_of(s) == "JPEG"@ || extension_of(s) == "png"@ || extension_of(s)
        == "PNG"@ || extension_of(s) == "bmp"@ || extension_of(s) == "BMP"@ || extension_of(s)
        == "gif"@ || extension_of(s) == "GIF"@ || extension_of(s) == "ico"@ || extension_of(s)
        == "ICO"@ || extension_of(s) == "tiff"@ || extension_of(s) == "TIFF"@)
}

/// Whether `pat` is a suffix of `s`.
pub open spec fn has_suffix(s: Seq<char>, pat: Seq<char>) -> bool {
    s.len() >= pat.len() && s.subrange(s.len() - pat.len(), s.len() as int) == pat
}

/// Whether the path names a style sheet that is not already minified.
pub open spec fn is_css_spec(s: Seq<char>) -> bool {
    has_suffix(s, ".css"@) && !has_suffix(s, ".min.css"@)
}

/// Whether the path names a script that is not already minified.
pub open spec fn is_js_spec(s: Seq<char>) -> bool {
    has_suffix(s, ".js"@) && !has_suffix(s, ".min.js"@)
}

/// Whether the path names a page, by extension.
pub open spec fn is_html_spec(s: Seq<char>) -> bool {
    ext_dot(s) >= 0 && (extension_of(s) == "html"@ || extension_of(s) == "HTML"@)
}

/// The expected output name of an image: its extension becomes `webp`.
pub open spec fn image_filename_spec(s: Seq<char>) -> Seq<char> {
    with_extension(s, "webp"@)
}

/// The expected output name of a style sheet.
pub open spec fn css_filename_spec(s: Seq<char>) -> Seq<char> {
    with_extension(s, "min.css"@)
}

/// The expected output name of a script.
pub open spec fn js_filename_spec(s: Seq<char>) -> Seq<char> {
    with_extension(s, "min.js"@)
}

/// The expected output name of any asset: images, style sheets and
/// scripts are renamed by their rules, everything else keeps its name.
pub open spec fn transform_filename_spec(s: Seq<char>) -> Seq<char> {
    if is_image_spec(s) {
        image_filename_spec(s)
    } else if is_css_spec(s) {
        css_filename_spec(s)
    } else if is_js_spec(s) {
        js_filename_spec(s)
    } else {
        s
    }
}

/// Where the file name of the path begins.
fn find_name_start(s: &Vec<char>) -> (r: usize)
    ensures
        r == name_start(s@),
        r <= s@.len(),
{
    let mut i = s.len();

    proof {
        assert(s@.subrange(0, s@.len() as int) =~= s@);
    }

    while i > 0
        invariant
            i <= s@.len(),
            last_sep(s@) == last_sep(s@.subrange(0, i as int)),
        decreases i,
    {
        if s[i - 1] == '/' {
            proof {
                assert(s@.subrange(0, i as int).last() == '/');
            }
            return i;
        }
        proof {
            assert(s@.subrange(0, i as int).drop_last() =~= s@.subrange(0, i - 1));
        }
        i -= 1;
    }

    proof {
        assert(s@.subrange(0, 0) =~= Seq::<char>::empty());
    }
    0
}

/// The position right after the extension dot, or zero when the path
/// has no extension.
fn find_ext_dot(s: &Vec<char>) -> (r: Option<usize>)
    ensures
        match r {
            Some(d) => ext_dot(s@) == d && d < s@.len(),
            None => ext_dot(s@) < 0,
        },
{
    let lo = find_name_start(s);
    let mut i = s.len();

    proof {
        assert(s@.subrange(0, s@.len() as int) =~= s@);
    }

    while i > 0
        invariant
            i <= s@.len(),
            lo == name_start(s@),
            ext_dot_after(s@, lo as int) == ext_dot_after(s@.subrange(0, i as int), lo as int),
        decreases i,
    {
        if s[i - 1] == '.' && i - 1 > lo {
            proof {
                assert(s@.subrange(0, i as int).last() == '.');
            }
            return Some(i - 1);
        }
        proof {
            assert(s@.subrange(0, i as int).drop_last() =~= s@.subrange(0, i - 1));
        }
        i -= 1;
    }

    proof {
        assert(s@.subrange(0, 0) =~= Seq::<char>::empty());
    }
    None
}

/// Whether `pat` is a suffix of `s`.
fn ends_with_lit(s: &Vec<char>, pat: &str) -> (r: bool)
    ensures
        r == has_suffix(s@, pat@),
{
    let n = pat.unicode_len();
    if s.len() < n {
        return false;
    }
    let start = s.len() - n;
    let mut i: usize = 0;

    while i < n
        invariant
            i <= n,
            n == pat@.len(),
            start + n == s@.len(),
            s@.len() <= usize::MAX,
            forall|j: int| 0 <= j < i ==> s@[start + j] == pat@[j],
        decreases n - i,
    {
        if s[start + i] != pat.get_char(i) {
            proof {
                assert(s@.subrange(start as int, s@.len() as int)[i as int] != pat@[i as int]);
            }
            return false;
        }
        i += 1;
    }

    proof {
        assert(s@.subrange(start as int, s@.len() as int) =~= pat@);
    }
    true
}

/// Whether the extension of the path equals `pat`.
fn extension_is(s: &Vec<char>, d: usize, pat: &str) -> (r: bool)
    requires
        ext_dot(s@) == d < s@.len(),
    ensures
        r == (extension_of(s@) == pat@),
{
    let n = pat.unicode_len();
    if s.len() - d - 1 != n {
        proof {
            assert(extension_of(s@).len() == s@.len() - d - 1);
        }
        return false;
    }
    let mut i: usize = 0;

    while i < n
        invariant
            i <= n,
            n == pat@.len(),
            ext_dot(s@) == d < s@.len(),
            d + 1 + n == s@.len(),
            s@.len() <= usize::MAX,
            forall|j: int| 0 <= j < i ==> s@[d + 1 + j] == pat@[j],
        decreases n - i,
    {
        if s[d + 1 + i] != pat.get_char(i) {
            proof {
                assert(extension_of(s@)[i as int] != pat@[i as int]);
            }
            return false;
        }
        i += 1;
    }

    proof {
        assert(extension_of(s@) =~= pat@);
    }
    true
}

/// Whether the path names an image, by extension.
pub fn is_image(path: &Vec<char>) -> (r: bool)
    ensures
        r == is_image_spec(path@),
{
    match find_ext_dot(path) {
        None => false,
        Some(d) => extension_is(path, d, "jpg") || extension_is(path, d, "JPG")
            || extension_is(path, d, "jpeg") || extension_is(path, d, "JPEG") || extension_is(
            path,
            d,
            "png",
        ) || extension_is(path, d, "PNG") || extension_is(path, d, "bmp") || extension_is(
            path,
            d,
            "BMP",
        ) || extension_is(path, d, "gif") || extension_is(path, d, "GIF") || extension_is(
            path,
            d,
            "ico",
        ) || extension_is(path, d, "ICO") || extension_is(path, d, "tiff") || extension_is(
            path,
            d,
            "TIFF",
        ),
    }
}

/// Whether the path names a style sheet that is not already minified.
pub fn is_css(path: &Vec<char>) -> (r: bool)
    ensures
        r == is_css_spec(path@),
{
    ends_with_lit(path, ".css") && !ends_with_lit(path, ".min.css")
}

/// Whether the path names a script that is not already minified.
pub fn is_js(path: &Vec<char>) -> (r: bool)
    ensures
        r == is_js_spec(path@),
{
    ends_with_lit(path, ".js") && !ends_with_lit(path, ".min.js")
}

/// Whether the path names a page, by extension.
pub fn is_html(path: &Vec<char>) -> (r: bool)
    ensures
        r == is_html_spec(path@),
{
    match find_ext_dot(path) {
        None => false,
        Some(d) => extension_is(path, d, "html") || extension_is(path, d, "HTML"),
    }
}

/// The path with its extension replaced by `ext`.
fn set_extension(path: &Vec<char>, ext: &str) -> (r: Vec<char>)
    ensures
        r@ == with_extension(path@, ext@),
{
    let mut out: Vec<char> = Vec::new();
    let plen = path.len();
    let stop = match find_ext_dot(path) {
        Some(d) => d + 1,
        None => plen,
    };
    let mut i: usize = 0;

    while i < stop
        invariant
            i <= stop <= path@.len(),
            out@ == path@.subrange(0, i as int),
        decreases stop - i,
    {
        out.push(path[i]);
        proof {
            assert(path@.subrange(0, i + 1) =~= path@.subrange(0, i as int)
                + seq![path@[i as int]]);
        }
        i += 1;
    }

    match find_ext_dot(path) {
        Some(_) => {
            push_str(&mut out, ext);
        },
        None => {
            proof {
                assert(path@.subrange(0, path@.len() as int) =~= path@);
            }
            push_str(&mut out, ".");
            push_str(&mut out, ext);
        },
    }

    proof {
        assert(out@ =~= with_extension(path@, ext@));
    }
    out
}

/// The expected output name of an image.
pub fn transform_image_filename(path: &Vec<char>) -> (r: Vec<char>)
    ensures
        r@ == image_filename_spec(path@),
{
    set_extension(path, "webp")
}

/// The expected output name of a style sheet.
pub fn transform_css_filename(path: &Vec<char>) -> (r: Vec<char>)
    ensures
        r@ == css_filename_spec(path@),
{
    set_extension(path, "min.css")
}

/// The expected output name of a script.
pub fn transform_js_filename(path: &Vec<char>) -> (r: Vec<char>)
    ensures
        r@ == js_filename_spec(path@),
{
    set_extension(path, "min.js")
}

/// The expected output name of any asset.
pub fn transform_filename(path: &Vec<char>) -> (r: Vec<char>)
    ensures
        r@ == transform_filename_spec(path@),
{
    if is_image(path) {
        transform_image_filename(path)
    } else if is_css(path) {
        transform_css_filename(path)
    } else if is_js(path) {
        transform_js_filename(path)
    } else {
        let mut out: Vec<char> = Vec::new();
        push_chars(&mut out, path);
        out
    }
}

/// A base directory joined with a relative path: the relative path
/// alone when it is absolute or the base is empty, else the two with a
/// separator between them.
pub open spec fn join_spec(base: Seq<char>, rel: Seq<char>) -> Seq<char> {
    if rel.len() > 0 && rel[0] == '/' {
        rel
    } else if base.len() == 0 {
        rel
    } else {
        base + "/"@ + rel
    }
}

/// Joins a base directory and a relative path.
pub fn join_path(base: &str, rel: &Vec<char>) -> (r: Vec<char>)
    ensures
        r@ == join_spec(base@, rel@),
{
    let mut out: Vec<char> = Vec::new();
    if rel.len() > 0 && rel[0] == '/' {
        push_chars(&mut out, rel);
    } else if base.unicode_len() == 0 {
        push_chars(&mut out, rel);
    } else {
        push_str(&mut out, base);
        push_str(&mut out, "/");
        push_chars(&mut out, rel);
        proof {
            assert(out@ =~= join_spec(base@, rel@));
        }
    }
    out
}

} // verus!

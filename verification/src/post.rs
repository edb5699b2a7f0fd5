//! One source document: its parsed metadata, its resolved URL, its
//! output filename, and its raw bytes.

use vstd::prelude::*;

verus! {

use crate::metadata::{
    date_spec, line_spec, lines_spec, metadata_spec, meta_view, month_name_spec, nl_end,
    MetaOk, MetaState, ParsingError, PostDate, PostMetadata, PostMetadataParser,
};
use crate::text::{dec_pad, make_id, make_id_spec, push_pad2, push_pad4, push_str, to_chars};

/// The output filename derived from a title: the anchor slug with the
/// page extension appended.
pub open spec fn encode_filename_spec(s: Seq<char>) -> Seq<char> {
    make_id_spec(s) + ".html"@
}

/// Derives the output filename from a title.
pub fn encode_filename(id: &str) -> (r: Vec<char>)
    ensures
        r@ == encode_filename_spec(id@),
{
    let chars = to_chars(id);
    let mut out = make_id(&chars);
    push_str(&mut out, ".html");
    out
}

/// The output path of a dated document: zero-padded year, abbreviated
/// month name, zero-padded day, and the filename derived from the title.
pub open spec fn post_path_spec(date: PostDate, title: Seq<char>) -> Seq<char> {
    dec_pad(date.year as nat, 4) + seq!['/'] + month_name_spec(date.month) + seq!['/'] + dec_pad(
        date.day as nat,
        2,
    ) + seq!['/'] + encode_filename_spec(title)
}

/// A date taken from a parsed document lies in the documented ranges.
pub open spec fn date_wf(d: PostDate) -> bool {
    1 <= d.month <= 12 && 1 <= d.day <= 31 && 1970 <= d.year <= 9999
}

proof fn lemma_line_date_wf(s: Seq<u8>, st: MetaState, end: int)
    requires
        st.date matches Some(d) ==> date_wf(d),
        line_spec(s, st, end) matches Ok(st2) && st2.date matches Some(d2),
    ensures
        date_wf(line_spec(s, st, end).unwrap().date.unwrap()),
{
}

proof fn lemma_lines_date_wf(s: Seq<u8>, st: MetaState)
    requires
        st.date matches Some(d) ==> date_wf(d),
        lines_spec(s, st) matches Ok(st2) && st2.date matches Some(d2),
    ensures
        date_wf(lines_spec(s, st).unwrap().date.unwrap()),
    decreases s.len() + 1 - st.cursor,
{
    match crate::metadata::find_stop(s, st.cursor) {
        None => {},
        Some(lb) => {
            if lb == st.cursor || lb < st.cursor {
            } else {
                match line_spec(s, st, lb) {
                    Err(_) => {},
                    Ok(st2) => {
                        if st2.date is Some {
                            lemma_line_date_wf(s, st, lb);
                        }
                        lemma_lines_date_wf(
                            s,
                            MetaState {
                                cursor: crate::metadata::step_to(lb, s.len() as int),
                                ..st2
                            },
                        );
                    },
                }
            }
        },
    }
}

/// Bounds for the space run end.
proof fn lemma_ws_end_max(s: Seq<u8>, from: int)
    requires
        0 <= from <= s.len(),
    ensures
        from <= crate::metadata::ws_end(s, from) <= s.len(),
    decreases s.len() - from,
{
    if from < s.len() && s[from] == crate::parser::SPACE {
        lemma_ws_end_max(s, from + 1);
    }
}

/// Bounds for the line-feed run end.
proof fn lemma_nl_end_max(s: Seq<u8>, from: int)
    requires
        0 <= from <= s.len(),
    ensures
        from <= nl_end(s, from) <= s.len(),
    decreases s.len() - from,
{
    if from < s.len() && s[from] == crate::metadata::NEWLINE {
        lemma_nl_end_max(s, from + 1);
    }
}

/// A successfully parsed document head has its date in range and its
/// content offset within the document.
pub proof fn lemma_metadata_ok(s: Seq<u8>)
    requires
        metadata_spec(s) matches Ok(m),
    ensures
        date_wf(metadata_spec(s).unwrap().date),
        0 <= metadata_spec(s).unwrap().start_content <= s.len(),
{
    let st0 = MetaState {
        cursor: 0,
        date: None,
        mirror: None,
        categories: Seq::empty(),
        startpage: false,
    };
    let st = lines_spec(s, st0).unwrap();
    lemma_lines_date_wf(s, st0);

    let c = crate::metadata::step_to(st.cursor, s.len() as int);
    match crate::metadata::title_spec(s, c) {
        Err(_) => {},
        Ok((_, c2)) => {
            assert(0 <= c2 <= s.len()) by {
                assert(0 <= c < s.len());
                lemma_ws_end_max(s, c + 1);
                let c3 = crate::metadata::ws_end(s, c + 1);
                crate::metadata::lemma_find_stop_bounds(s, c3);
            }
            lemma_nl_end_max(s, c2);
        },
    }
}

/// One source document, parsed and resolved.
#[derive(Debug)]
pub struct Post {
    /// The parsed metadata.
    pub metadata: PostMetadata,
    /// The URL the document is reachable under: its mirror URL when it
    /// is headless, else the derived local path with a leading slash.
    pub url: String,
    /// The local output filename, absent for a headless document.
    pub filename: Option<String>,
    /// The whole document bytes.
    pub data: Vec<u8>,
}

/// What holds of every constructed `Post`.
pub open spec fn post_wf(p: Post) -> bool {
    &&& 0 <= p.metadata.start_content <= p.data@.len()
    &&& date_wf(p.metadata.date)
}

impl Post {
    /// Builds a document from its raw bytes: parses the head and derives
    /// the URL and output filename, which a mirror URL overrides.
    pub fn new(data: Vec<u8>) -> (r: Result<Post, ParsingError>)
        ensures
            match metadata_spec(data@) {
                Err(e) => r matches Err(pe) && pe == e,
                Ok(m) => r matches Ok(p) && post_wf(p) && meta_view(p.metadata) == m && p.data@
                    == data@ && (match m.mirror {
                    Some(u) => p.filename is None && p.url@ == u,
                    None => p.filename matches Some(f) && f@ == post_path_spec(m.date, m.title)
                        && p.url@ == seq!['/'] + post_path_spec(m.date, m.title),
                }),
            },
    {
        let metadata = match PostMetadataParser::parse(data.as_slice()) {
            Ok(m) => m,
            Err(e) => {
                return Err(e);
            },
        };

        proof {
            lemma_metadata_ok(data@);
        }

        match &metadata.mirror {
            Some(u) => {
                let url = u.clone();
                Ok(Post { metadata, url, filename: None, data })
            },
            None => {
                let mut path: Vec<char> = Vec::new();
                push_pad4(&mut path, metadata.date.year);
                path.push('/');
                push_str(&mut path, metadata.date.month_name());
                path.push('/');
                push_pad2(&mut path, metadata.date.day);
                path.push('/');
                let mut slug = encode_filename(metadata.title.as_str());
                let ghost path_head = path@;
                let mut i: usize = 0;
                while i < slug.len()
                    invariant
                        i <= slug.len(),
                        path@ == path_head + slug@.subrange(0, i as int),
                    decreases slug.len() - i,
                {
                    path.push(slug[i]);
                    proof {
                        assert(slug@.subrange(0, i + 1) =~= slug@.subrange(0, i as int)
                            + seq![slug@[i as int]]);
                    }
                    i += 1;
                }
                proof {
                    assert(slug@.subrange(0, slug@.len() as int) =~= slug@);
                    assert(path@ == post_path_spec(metadata.date, metadata.title@));
                }

                let mut url_chars: Vec<char> = Vec::new();
                url_chars.push('/');
                let ghost url_head = url_chars@;
                let mut j: usize = 0;
                while j < path.len()
                    invariant
                        j <= path.len(),
                        url_chars@ == url_head + path@.subrange(0, j as int),
                    decreases path.len() - j,
                {
                    url_chars.push(path[j]);
                    proof {
                        assert(path@.subrange(0, j + 1) =~= path@.subrange(0, j as int)
                            + seq![path@[j as int]]);
                    }
                    j += 1;
                }
                proof {
                    assert(path@.subrange(0, path@.len() as int) =~= path@);
                    assert(url_chars@ == seq!['/'] + path@);
                }

                let url = crate::ext::chars_to_string(&url_chars);
                let filename = crate::ext::chars_to_string(&path);
                Ok(Post { metadata, url, filename: Some(filename), data })
            },
        }
    }

    /// The parsed metadata.
    pub fn metadata(&self) -> (r: &PostMetadata)
        ensures
            r == self.metadata,
    {
        &self.metadata
    }

    /// The URL the document is reachable under.
    pub fn url(&self) -> (r: &str)
        ensures
            r@ == self.url@,
    {
        self.url.as_str()
    }

    /// The local output filename, absent for a headless document.
    pub fn filename(&self) -> (r: Option<&str>)
        ensures
            match r {
                Some(f) => self.filename matches Some(g) && f@ == g@,
                None => self.filename is None,
            },
    {
        match &self.filename {
            Some(f) => Some(f.as_str()),
            None => None,
        }
    }

    /// The body content: everything after the parsed head.
    pub fn content(&self) -> (r: &[u8])
        requires
            post_wf(*self),
        ensures
            r@ == self.data@.subrange(
                self.metadata.start_content as int,
                self.data@.len() as int,
            ),
    {
        vstd::slice::slice_subrange(
            self.data.as_slice(),
            self.metadata.start_content,
            self.data.len(),
        )
    }
}

} // verus!

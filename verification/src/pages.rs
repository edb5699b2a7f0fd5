//! The aggregate pages: the index, the archive, the missing-resource
//! page, and the feed, each built from the whole cache entry set.

use vstd::prelude::*;

verus! {

use crate::cache::{CacheEntry, CacheEntryV, entry_view};
use crate::metadata::PostDate;
use crate::templates::{join_all, push_chars, str_views_of};
use crate::text::{dec_pad, push_pad2, push_pad4, push_str, to_chars};

/// The mathematical values of an entry list.
pub open spec fn entries_view(s: Seq<CacheEntry>) -> Seq<CacheEntryV> {
    s.map_values(|e: CacheEntry| entry_view(e))
}

/// The markup of one index line: a link to the entry.
pub open spec fn index_item_markup(e: CacheEntryV) -> Seq<char> {
    "<li><a href=\""@ + e.url + "\">"@ + e.metadata.title + "</a></li>\n"@
}

/// The first `i` index lines.
pub open spec fn index_items_to(s: Seq<CacheEntryV>, i: int) -> Seq<char>
    decreases i,
{
    if i <= 0 {
        Seq::empty()
    } else {
        index_items_to(s, i - 1) + index_item_markup(s[i - 1])
    }
}

/// The markup of the index page.
pub open spec fn index_markup(s: Seq<CacheEntryV>) -> Seq<char> {
    "<!DOCTYPE html>\n<html>\n<head>\n<title>Index</title>\n</head>\n<body>\n<ul>\n"@
        + index_items_to(s, s.len() as int) + "</ul>\n</body>\n</html>\n"@
}

/// The index page.
pub struct Index<'a> {
    /// The entries, newest first.
    pub entries: &'a Vec<CacheEntry>,
}

impl<'a> Index<'a> {
    /// Appends the index page markup.
    pub fn render_into(&self, out: &mut Vec<char>)
        ensures
            final(out)@ == old(out)@ + index_markup(entries_view(self.entries@)),
    {
        push_str(out, "<!DOCTYPE html>\n<html>\n<head>\n<title>Index</title>\n</head>\n<body>\n<ul>\n");
        let ghost head = out@;
        let mut i: usize = 0;

        while i < self.entries.len()
            invariant
                i <= self.entries@.len(),
                out@ == head + index_items_to(entries_view(self.entries@), i as int),
            decreases self.entries.len() - i,
        {
            let ghost pre = out@;
            let e = &self.entries[i];
            push_str(out, "<li><a href=\"");
            push_str(out, e.url.as_str());
            push_str(out, "\">");
            push_str(out, e.metadata.title.as_str());
            push_str(out, "</a></li>\n");
            proof {
                assert(entries_view(self.entries@)[i as int] == entry_view(
                    self.entries@[i as int],
                ));
                assert(out@ =~= pre + index_item_markup(entries_view(self.entries@)[i as int]));
                assert(out@ =~= head + index_items_to(entries_view(self.entries@), i + 1));
            }
            i += 1;
        }

        push_str(out, "</ul>\n</body>\n</html>\n");
        proof {
            assert(out@ =~= old(out)@ + index_markup(entries_view(self.entries@)));
        }
    }
}

/// The markup of one archive line: the date and a link to the entry.
pub open spec fn archive_item_markup(e: CacheEntryV) -> Seq<char> {
    "<li>"@ + dec_pad(e.metadata.date.year as nat, 4) + "-"@ + dec_pad(
        e.metadata.date.month as nat,
        2,
    ) + "-"@ + dec_pad(e.metadata.date.day as nat, 2) + " <a href=\""@ + e.url + "\">"@
        + e.metadata.title + "</a></li>\n"@
}

/// The first `i` archive lines.
pub open spec fn archive_items_to(s: Seq<CacheEntryV>, i: int) -> Seq<char>
    decreases i,
{
    if i <= 0 {
        Seq::empty()
    } else {
        archive_items_to(s, i - 1) + archive_item_markup(s[i - 1])
    }
}

/// The markup of the archive page.
pub open spec fn archive_markup(s: Seq<CacheEntryV>) -> Seq<char> {
    "<!DOCTYPE html>\n<html>\n<head>\n<title>Archive</title>\n</head>\n<body>\n<ul>\n"@
        + archive_items_to(s, s.len() as int) + "</ul>\n</body>\n</html>\n"@
}

/// The archive page.
pub struct Archive<'a> {
    /// The entries, newest first.
    pub entries: &'a Vec<CacheEntry>,
}

impl<'a> Archive<'a> {
    /// Appends the archive page markup.
    #[verifier::rlimit(50)]
    pub fn render_into(&self, out: &mut Vec<char>)
        ensures
            final(out)@ == old(out)@ + archive_markup(entries_view(self.entries@)),
    {
        push_str(out, "<!DOCTYPE html>\n<html>\n<head>\n<title>Archive</title>\n</head>\n<body>\n<ul>\n");
        let ghost head = out@;
        let mut i: usize = 0;

        while i < self.entries.len()
            invariant
                i <= self.entries@.len(),
                out@ == head + archive_items_to(entries_view(self.entries@), i as int),
            decreases self.entries.len() - i,
        {
            let ghost pre = out@;
            let e = &self.entries[i];
            push_str(out, "<li>");
            push_pad4(out, e.metadata.date.year);
            push_str(out, "-");
            push_pad2(out, e.metadata.date.month);
            push_str(out, "-");
            push_pad2(out, e.metadata.date.day);
            push_str(out, " <a href=\"");
            push_str(out, e.url.as_str());
            push_str(out, "\">");
            push_str(out, e.metadata.title.as_str());
            push_str(out, "</a></li>\n");
            proof {
                assert(entries_view(self.entries@)[i as int] == entry_view(
                    self.entries@[i as int],
                ));
                assert(out@ =~= pre + archive_item_markup(
                    entries_view(self.entries@)[i as int],
                ));
                assert(out@ =~= head + archive_items_to(entries_view(self.entries@), i + 1));
            }
            i += 1;
        }

        push_str(out, "</ul>\n</body>\n</html>\n");
        proof {
            assert(out@ =~= old(out)@ + archive_markup(entries_view(self.entries@)));
        }
    }
}

/// Renders the index page from the whole entry set.
pub fn render_index(entries: &Vec<CacheEntry>) -> (r: String)
    ensures
        r@ == index_markup(entries_view(entries@)),
{
    let mut out: Vec<char> = Vec::new();
    let page = Index { entries };
    page.render_into(&mut out);
    crate::ext::chars_to_string(&out)
}

/// Renders the archive page from the whole entry set.
pub fn render_archive(entries: &Vec<CacheEntry>) -> (r: String)
    ensures
        r@ == archive_markup(entries_view(entries@)),
{
    let mut out: Vec<char> = Vec::new();
    let page = Archive { entries };
    page.render_into(&mut out);
    crate::ext::chars_to_string(&out)
}

/// Renders the page shown for a missing resource.
pub fn render_404() -> (r: String)
    ensures
        r@ == crate::templates::status404_markup(),
{
    let mut out: Vec<char> = Vec::new();
    let page = crate::templates::Status404 {};
    page.render_into(&mut out);
    crate::ext::chars_to_string(&out)
}

/// The latest date among the entries; all-zero when there are none.
pub open spec fn max_date(s: Seq<CacheEntryV>) -> PostDate
    decreases s.len(),
{
    if s.len() == 0 {
        PostDate { year: 0, month: 0, day: 0 }
    } else {
        let prev = max_date(s.drop_last());
        if crate::metadata::date_before(prev, s.last().metadata.date) {
            s.last().metadata.date
        } else {
            prev
        }
    }
}

/// The latest date among the entries; all-zero when there are none.
pub fn max_post_date(entries: &Vec<CacheEntry>) -> (r: PostDate)
    ensures
        r == max_date(entries_view(entries@)),
{
    let mut ret = PostDate { year: 0, month: 0, day: 0 };
    let mut i: usize = 0;

    while i < entries.len()
        invariant
            i <= entries@.len(),
            ret == max_date(entries_view(entries@).subrange(0, i as int)),
        decreases entries.len() - i,
    {
        if ret.before(&entries[i].metadata.date) {
            ret = entries[i].metadata.date;
        }
        proof {
            let ev = entries_view(entries@);
            assert(ev.subrange(0, i + 1).drop_last() =~= ev.subrange(0, i as int));
            assert(ev.subrange(0, i + 1).last() == ev[i as int]);
            assert(ev[i as int] == entry_view(entries@[i as int]));
        }
        i += 1;
    }

    proof {
        assert(entries_view(entries@).subrange(0, entries@.len() as int) =~= entries_view(
            entries@,
        ));
    }
    ret
}

/// The feed timestamp of a date: the date at midnight, UTC.
pub open spec fn atom_timestamp_spec(d: PostDate) -> Seq<char> {
    dec_pad(d.year as nat, 4) + "-"@ + dec_pad(d.month as nat, 2) + "-"@ + dec_pad(
        d.day as nat,
        2,
    ) + "T00:00:00Z"@
}

/// The feed timestamp of a date.
pub fn atom_timestamp(date: &PostDate) -> (r: String)
    ensures
        r@ == atom_timestamp_spec(*date),
{
    let mut out: Vec<char> = Vec::new();
    push_pad4(&mut out, date.year);
    push_str(&mut out, "-");
    push_pad2(&mut out, date.month);
    push_str(&mut out, "-");
    push_pad2(&mut out, date.day);
    push_str(&mut out, "T00:00:00Z");
    proof {
        assert(out@ =~= atom_timestamp_spec(*date));
    }
    crate::ext::chars_to_string(&out)
}

/// The category terms of one feed entry.
pub open spec fn cat_terms_to(cats: Seq<Seq<char>>, i: int) -> Seq<char>
    decreases i,
{
    if i <= 0 {
        Seq::empty()
    } else {
        cat_terms_to(cats, i - 1) + "<category term=\""@ + cats[i - 1] + "\"/>\n"@
    }
}

/// The markup of one feed entry.
pub open spec fn atom_entry_markup(
    title: Seq<char>,
    url: Seq<char>,
    published: Seq<char>,
    categories: Seq<Seq<char>>,
) -> Seq<char> {
    "<entry>\n<title>"@ + title + "</title>\n<link href=\""@ + url + "\"/>\n<published>"@
        + published + "</published>\n"@ + cat_terms_to(categories, categories.len() as int)
        + "</entry>\n"@
}

/// One feed entry.
pub struct AtomEntry {
    /// The entry title.
    pub title: Vec<char>,
    /// The entry URL.
    pub url: Vec<char>,
    /// The publication timestamp.
    pub published: Vec<char>,
    /// The entry's categories.
    pub categories: Vec<String>,
}

impl AtomEntry {
    /// Appends the feed entry markup.
    pub fn render_into(&self, out: &mut Vec<char>)
        ensures
            final(out)@ == old(out)@ + atom_entry_markup(
                self.title@,
                self.url@,
                self.published@,
                str_views_of(self.categories),
            ),
    {
        push_str(out, "<entry>\n<title>");
        push_chars(out, &self.title);
        push_str(out, "</title>\n<link href=\"");
        push_chars(out, &self.url);
        push_str(out, "\"/>\n<published>");
        push_chars(out, &self.published);
        push_str(out, "</published>\n");
        let ghost head = out@;
        let mut i: usize = 0;

        while i < self.categories.len()
            invariant
                i <= self.categories@.len(),
                out@ == head + cat_terms_to(str_views_of(self.categories), i as int),
            decreases self.categories.len() - i,
        {
            let ghost pre = out@;
            push_str(out, "<category term=\"");
            push_str(out, self.categories[i].as_str());
            push_str(out, "\"/>\n");
            proof {
                assert(str_views_of(self.categories)[i as int] == self.categories@[i as int]@);
                assert(out@ =~= head + cat_terms_to(str_views_of(self.categories), i + 1));
            }
            i += 1;
        }

        push_str(out, "</entry>\n");
        proof {
            assert(out@ =~= old(out)@ + atom_entry_markup(
                self.title@,
                self.url@,
                self.published@,
                str_views_of(self.categories),
            ));
        }
    }
}

/// The first `i` feed entries.
pub open spec fn feed_entries_to(s: Seq<CacheEntryV>, i: int) -> Seq<char>
    decreases i,
{
    if i <= 0 {
        Seq::empty()
    } else {
        feed_entries_to(s, i - 1) + atom_entry_markup(
            s[i - 1].metadata.title,
            s[i - 1].url,
            atom_timestamp_spec(s[i - 1].metadata.date),
            s[i - 1].metadata.categories,
        )
    }
}

/// The markup of the whole feed.
pub open spec fn feed_markup(updated: Seq<char>, s: Seq<CacheEntryV>) -> Seq<char> {
    "<?xml version=\"1.0\" encoding=\"utf-8\"?>\n<feed xmlns=\"http://www.w3.org/2005/Atom\">\n<updated>"@
        + updated + "</updated>\n"@ + feed_entries_to(s, s.len() as int) + "</feed>\n"@
}

/// The whole feed.
pub struct AtomFeed<'a> {
    /// The feed's last-updated timestamp.
    pub updated: Vec<char>,
    /// The entries, newest first.
    pub entries: &'a Vec<CacheEntry>,
}

impl<'a> AtomFeed<'a> {
    /// Appends the feed markup.
    pub fn render_into(&self, out: &mut Vec<char>)
        ensures
            final(out)@ == old(out)@ + feed_markup(
                self.updated@,
                entries_view(self.entries@),
            ),
    {
        push_str(
            out,
            "<?xml version=\"1.0\" encoding=\"utf-8\"?>\n<feed xmlns=\"http://www.w3.org/2005/Atom\">\n<updated>",
        );
        push_chars(out, &self.updated);
        push_str(out, "</updated>\n");
        let ghost head = out@;
        let mut i: usize = 0;

        while i < self.entries.len()
            invariant
                i <= self.entries@.len(),
                out@ == head + feed_entries_to(entries_view(self.entries@), i as int),
            decreases self.entries.len() - i,
        {
            let ghost pre = out@;
            let e = &self.entries[i];
            let item = AtomEntry {
                title: to_chars(e.metadata.title.as_str()),
                url: to_chars(e.url.as_str()),
                published: to_chars(atom_timestamp(&e.metadata.date).as_str()),
                categories: crate::renderer::copy_strings(&e.metadata.categories),
            };
            item.render_into(out);
            proof {
                assert(entries_view(self.entries@)[i as int] == entry_view(
                    self.entries@[i as int],
                ));
                assert(out@ =~= head + feed_entries_to(entries_view(self.entries@), i + 1));
            }
            i += 1;
        }

        push_str(out, "</feed>\n");
        proof {
            assert(out@ =~= old(out)@ + feed_markup(
                self.updated@,
                entries_view(self.entries@),
            ));
        }
    }
}

/// Renders the feed from the whole entry set: empty output when there
/// are no entries, else a feed whose `updated` value is the latest
/// entry date at midnight, UTC.
pub fn render_feed(entries: &Vec<CacheEntry>) -> (r: String)
    ensures
        ({
            let latest = max_date(entries_view(entries@));
            if latest.year == 0 {
                r@ == Seq::<char>::empty()
            } else {
                r@ == feed_markup(atom_timestamp_spec(latest), entries_view(entries@))
            }
        }),
{
    let latest = max_post_date(entries);

    if latest.year == 0 {
        let out: Vec<char> = Vec::new();
        return crate::ext::chars_to_string(&out);
    }

    let updated = atom_timestamp(&latest);
    let mut out: Vec<char> = Vec::new();
    let feed = AtomFeed { updated: to_chars(updated.as_str()), entries };
    feed.render_into(&mut out);
    crate::ext::chars_to_string(&out)
}

} // verus!

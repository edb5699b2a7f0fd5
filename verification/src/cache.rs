//! The persistent build cache: for each primary input, the
//! dependencies it was built with, its metadata, and its URL. Equality
//! of a rebuilt entry with the stored one is the did-anything-change
//! signal.

use vstd::prelude::*;

verus! {

use crate::metadata::{meta_view, MetaOk, PostMetadata};
use crate::renderer::Renderer;
use crate::templates::views_of;
use crate::transformer::{join_spec, transform_filename_spec};

/// One build dependency: an input file and the output it produces.
pub struct Dependency {
    /// The input path.
    pub input: String,
    /// The expected output path.
    pub output: String,
}

/// The mathematical value of a `Dependency`.
pub ghost struct DependencyV {
    /// The input path.
    pub input: Seq<char>,
    /// The expected output path.
    pub output: Seq<char>,
}

/// The mathematical value of a `Dependency`.
pub open spec fn dep_view(d: Dependency) -> DependencyV {
    DependencyV { input: d.input@, output: d.output@ }
}

/// The mathematical values of a dependency list.
pub open spec fn deps_view(s: Seq<Dependency>) -> Seq<DependencyV> {
    s.map_values(|d: Dependency| dep_view(d))
}

impl Dependency {
    /// The input path.
    pub fn input(&self) -> (r: &str)
        ensures
            r@ == self.input@,
    {
        self.input.as_str()
    }

    /// The expected output path.
    pub fn output(&self) -> (r: &str)
        ensures
            r@ == self.output@,
    {
        self.output.as_str()
    }
}

/// One cached resource: its dependencies, its metadata, and its URL.
pub struct CacheEntry {
    /// The dependency list; the first entry is always the primary
    /// document.
    pub dependencies: Vec<Dependency>,
    /// The document metadata the entry was built from.
    pub metadata: PostMetadata,
    /// The resolved URL.
    pub url: String,
}

/// The mathematical value of a `CacheEntry`.
pub ghost struct CacheEntryV {
    /// The dependency list.
    pub dependencies: Seq<DependencyV>,
    /// The document metadata.
    pub metadata: MetaOk,
    /// The resolved URL.
    pub url: Seq<char>,
}

/// The mathematical value of a `CacheEntry`.
pub open spec fn entry_view(e: CacheEntry) -> CacheEntryV {
    CacheEntryV {
        dependencies: deps_view(e.dependencies@),
        metadata: meta_view(e.metadata),
        url: e.url@,
    }
}

impl CacheEntry {
    /// The dependency list.
    pub fn dependencies(&self) -> (r: &Vec<Dependency>)
        ensures
            r == self.dependencies,
    {
        &self.dependencies
    }

    /// The document metadata.
    pub fn metadata(&self) -> (r: &PostMetadata)
        ensures
            r == self.metadata,
    {
        &self.metadata
    }

    /// The resolved URL.
    pub fn url(&self) -> (r: &str)
        ensures
            r@ == self.url@,
    {
        self.url.as_str()
    }
}

/// Whether two cache entries hold the same value.
pub fn entry_equal(a: &CacheEntry, b: &CacheEntry) -> (r: bool)
    ensures
        r == (entry_view(*a) == entry_view(*b)),
{
    let deps_eq = deps_equal(&a.dependencies, &b.dependencies);
    let meta_eq = metadata_equal(&a.metadata, &b.metadata);
    let url_eq = crate::text::str_equal(a.url.as_str(), b.url.as_str());
    if deps_eq && meta_eq && url_eq {
        proof {
            assert(entry_view(*a) == entry_view(*b));
        }
        true
    } else {
        false
    }
}

/// Whether two dependency lists hold the same paths.
fn deps_equal(a: &Vec<Dependency>, b: &Vec<Dependency>) -> (r: bool)
    ensures
        r == (deps_view(a@) == deps_view(b@)),
{
    if a.len() != b.len() {
        proof {
            assert(deps_view(a@).len() != deps_view(b@).len());
        }
        return false;
    }
    let mut i: usize = 0;

    while i < a.len()
        invariant
            i <= a@.len(),
            a@.len() == b@.len(),
            forall|j: int| 0 <= j < i ==> #[trigger] deps_view(a@)[j] == deps_view(b@)[j],
        decreases a.len() - i,
    {
        if !(crate::text::str_equal(a[i].input.as_str(), b[i].input.as_str())
            && crate::text::str_equal(a[i].output.as_str(), b[i].output.as_str())) {
            proof {
                assert(deps_view(a@)[i as int] != deps_view(b@)[i as int]);
            }
            return false;
        }
        proof {
            assert(deps_view(a@)[i as int] == deps_view(b@)[i as int]);
        }
        i += 1;
    }

    proof {
        assert(deps_view(a@) =~= deps_view(b@));
    }
    true
}

/// Whether two string lists hold the same text.
fn strings_equal(a: &Vec<String>, b: &Vec<String>) -> (r: bool)
    ensures
        r == (crate::templates::str_views_of(*a) == crate::templates::str_views_of(*b)),
{
    if a.len() != b.len() {
        proof {
            assert(crate::templates::str_views_of(*a).len() != crate::templates::str_views_of(
                *b,
            ).len());
        }
        return false;
    }
    let mut i: usize = 0;

    while i < a.len()
        invariant
            i <= a@.len(),
            a@.len() == b@.len(),
            forall|j: int| 0 <= j < i ==> #[trigger] a@[j]@ == b@[j]@,
        decreases a.len() - i,
    {
        if !crate::text::str_equal(a[i].as_str(), b[i].as_str()) {
            proof {
                assert(crate::templates::str_views_of(*a)[i as int] != crate::templates::str_views_of(
                    *b,
                )[i as int]);
            }
            return false;
        }
        i += 1;
    }

    proof {
        assert(crate::templates::str_views_of(*a) =~= crate::templates::str_views_of(*b));
    }
    true
}

/// Whether two metadata values are equal.
fn metadata_equal(a: &PostMetadata, b: &PostMetadata) -> (r: bool)
    ensures
        r == (meta_view(*a) == meta_view(*b)),
{
    let title_eq = crate::text::str_equal(a.title.as_str(), b.title.as_str());
    let date_eq = a.date == b.date;
    let cats_eq = strings_equal(&a.categories, &b.categories);
    let mirror_eq = match (&a.mirror, &b.mirror) {
        (Some(x), Some(y)) => crate::text::str_equal(x.as_str(), y.as_str()),
        (None, None) => true,
        _ => false,
    };
    let rest_eq = a.startpage == b.startpage && a.start_content == b.start_content;
    if title_eq && date_eq && cats_eq && mirror_eq && rest_eq {
        proof {
            assert(meta_view(*a) == meta_view(*b));
        }
        true
    } else {
        false
    }
}

/// The index of the entry stored under the given primary input path.
pub open spec fn find_entry(s: Seq<CacheEntryV>, key: Seq<char>) -> Option<int>
    decreases s.len(),
{
    if s.len() == 0 {
        None
    } else if s[0].dependencies.len() > 0 && s[0].dependencies[0].input == key {
        Some(0)
    } else {
        match find_entry(s.drop_first(), key) {
            Some(i) => Some(i + 1),
            None => None,
        }
    }
}

/// The persistent map from primary input path to cache entry, keyed by
/// each entry's first dependency.
pub struct PostCache {
    /// The stored entries, in order of first insertion.
    pub resources: Vec<CacheEntry>,
}

/// The mathematical value of the cache.
pub open spec fn cache_view(c: PostCache) -> Seq<CacheEntryV> {
    c.resources@.map_values(|e: CacheEntry| entry_view(e))
}

/// What holds of every cache: no entry has an empty dependency list,
/// and no two entries share a primary input path.
pub open spec fn cache_wf(s: Seq<CacheEntryV>) -> bool {
    &&& forall|i: int| 0 <= i < s.len() ==> #[trigger] s[i].dependencies.len() >= 1
    &&& forall|i: int, j: int|
        0 <= i < j < s.len() ==> #[trigger] s[i].dependencies[0].input != #[trigger] s[j].dependencies[0].input
}

/// Where a key is found, connected to scanning.
proof fn lemma_find_entry_at(s: Seq<CacheEntryV>, key: Seq<char>, k: int)
    requires
        0 <= k <= s.len(),
        forall|i: int|
            0 <= i < k ==> !(#[trigger] s[i].dependencies.len() > 0 && s[i].dependencies[0].input
                == key),
        k == s.len() || (s[k].dependencies.len() > 0 && s[k].dependencies[0].input == key),
    ensures
        k < s.len() ==> find_entry(s, key) == Some(k),
        k == s.len() ==> find_entry(s, key) is None,
    decreases k, s.len(),
{
    if s.len() == 0 {
    } else if k == 0 {
    } else {
        lemma_find_entry_at(s.drop_first(), key, k - 1);
    }
}

/// The built entry for a finished render: the primary dependency, one
/// dependency per file mention, the document metadata, and the URL.
pub open spec fn built_entry(
    input_basedir: Seq<char>,
    input_file: Seq<char>,
    output_basedir: Seq<char>,
    output_file: Seq<char>,
    meta: MetaOk,
    url: Seq<char>,
    mentions: Seq<Seq<char>>,
) -> CacheEntryV {
    CacheEntryV {
        dependencies: seq![DependencyV { input: input_file, output: output_file }]
            + mentions.map_values(
            |m: Seq<char>|
                DependencyV {
                    input: join_spec(input_basedir, m),
                    output: transform_filename_spec(join_spec(output_basedir, m)),
                },
        ),
        metadata: meta,
        url,
    }
}

/// The entries kept when a stored list is read back: entries without
/// dependencies are dropped, and of several entries sharing a primary
/// input path only the first is kept.
pub open spec fn keep_entries(s: Seq<CacheEntryV>, acc: Seq<CacheEntryV>) -> Seq<CacheEntryV>
    decreases s.len(),
{
    if s.len() == 0 {
        acc
    } else {
        let e = s[0];
        let acc2 = if e.dependencies.len() >= 1 && find_entry(acc, e.dependencies[0].input)
            is None {
            acc.push(e)
        } else {
            acc
        };
        keep_entries(s.drop_first(), acc2)
    }
}

/// The mathematical values of an entry list.
pub open spec fn entry_seq_view(s: Seq<CacheEntry>) -> Seq<CacheEntryV> {
    s.map_values(|e: CacheEntry| entry_view(e))
}

/// What inserting an entry under a key does to the stored sequence,
/// and whether it reports a change.
pub open spec fn insert_result(s: Seq<CacheEntryV>, key: Seq<char>, e: CacheEntryV) -> (
    bool,
    Seq<CacheEntryV>,
) {
    match find_entry(s, key) {
        Some(i) => {
            if s[i] != e {
                (true, s.update(i, e))
            } else {
                (false, s)
            }
        },
        None => (true, s.push(e)),
    }
}

impl PostCache {
    /// An empty cache.
    pub fn new() -> (r: PostCache)
        ensures
            cache_view(r) == Seq::<CacheEntryV>::empty(),
            cache_wf(cache_view(r)),
    {
        let r = PostCache { resources: Vec::new() };
        proof {
            assert(cache_view(r) =~= Seq::<CacheEntryV>::empty());
        }
        r
    }

    /// Rebuilds a cache from a list of entries, as read back from
    /// disk: entries without dependencies and entries whose primary
    /// input was already seen are dropped.
    pub fn from_entries(entries: Vec<CacheEntry>) -> (r: PostCache)
        ensures
            cache_view(r) == keep_entries(entry_seq_view(entries@), Seq::empty()),
            cache_wf(cache_view(r)),
    {
        let ghost full = entry_seq_view(entries@);
        let mut c = PostCache::new();
        let mut rest = entries;

        while rest.len() > 0
            invariant
                cache_wf(cache_view(c)),
                keep_entries(full, Seq::empty()) == keep_entries(
                    entry_seq_view(rest@),
                    cache_view(c),
                ),
            decreases rest.len(),
        {
            let ghost pre_rest = entry_seq_view(rest@);
            let ghost pre_cache = cache_view(c);
            let e = rest.remove(0);
            let ghost ev = entry_view(e);
            proof {
                assert(pre_rest[0] == ev);
                assert(entry_seq_view(rest@) =~= pre_rest.drop_first());
            }
            if e.dependencies.len() > 0 {
                let key_owned = e.dependencies[0].input.clone();
                proof {
                    assert(ev.dependencies[0].input == key_owned@);
                    assert(ev.dependencies.len() >= 1);
                }
                if c.get(key_owned.as_str()).is_none() {
                    c.push_checked(e);
                }
            }
        }

        proof {
            assert(entry_seq_view(rest@).len() == 0);
        }
        c
    }

    /// Appends an entry whose key is not yet present.
    fn push_checked(&mut self, e: CacheEntry)
        requires
            cache_wf(cache_view(*old(self))),
            entry_view(e).dependencies.len() >= 1,
            find_entry(cache_view(*old(self)), entry_view(e).dependencies[0].input) is None,
        ensures
            cache_view(*final(self)) == cache_view(*old(self)).push(entry_view(e)),
            cache_wf(cache_view(*final(self))),
    {
        let ghost pre = cache_view(*self);
        let ghost ev = entry_view(e);
        self.resources.push(e);
        proof {
            assert(cache_view(*self) =~= pre.push(ev));
            lemma_find_none_means_absent(pre, ev.dependencies[0].input);
            assert forall|i: int, j: int| 0 <= i < j < pre.len() + 1 implies #[trigger] cache_view(
                *self,
            )[i].dependencies[0].input != #[trigger] cache_view(*self)[j].dependencies[0].input by {
                if j < pre.len() {
                    assert(pre[i].dependencies[0].input != pre[j].dependencies[0].input);
                } else {
                    assert(cache_view(*self)[j] == ev);
                    assert(pre[i].dependencies[0].input != ev.dependencies[0].input);
                }
            }
        }
    }

    /// Forgets every stored entry.
    pub fn clear(&mut self)
        ensures
            cache_view(*final(self)) == Seq::<CacheEntryV>::empty(),
            cache_wf(cache_view(*final(self))),
    {
        self.resources.clear();
        proof {
            assert(cache_view(*self) =~= Seq::<CacheEntryV>::empty());
        }
    }

    /// The entry stored under a primary input path, if any.
    pub fn get(&self, path: &str) -> (r: Option<&CacheEntry>)
        ensures
            match r {
                Some(e) => find_entry(cache_view(*self), path@) matches Some(i) && entry_view(*e)
                    == cache_view(*self)[i],
                None => find_entry(cache_view(*self), path@) is None,
            },
    {
        let ghost cv = cache_view(*self);
        let mut i: usize = 0;

        while i < self.resources.len()
            invariant
                i <= self.resources@.len(),
                cv == cache_view(*self),
                cv.len() == self.resources@.len(),
                forall|j: int|
                    0 <= j < i ==> !(#[trigger] cv[j].dependencies.len() > 0
                        && cv[j].dependencies[0].input == path@),
            decreases self.resources.len() - i,
        {
            let e = &self.resources[i];
            if e.dependencies.len() > 0 && crate::text::str_equal(
                e.dependencies[0].input.as_str(),
                path,
            ) {
                proof {
                    assert(cv[i as int] == entry_view(self.resources@[i as int]));
                    lemma_find_entry_at(cv, path@, i as int);
                }
                return Some(e);
            }
            proof {
                assert(cv[i as int] == entry_view(self.resources@[i as int]));
            }
            i += 1;
        }

        proof {
            lemma_find_entry_at(cv, path@, cv.len() as int);
        }
        None
    }

    /// All stored entries, in order of first insertion.
    pub fn resources(&self) -> (r: &Vec<CacheEntry>)
        ensures
            r == self.resources,
    {
        &self.resources
    }
}

/// A key that scanning never found is absent.
proof fn lemma_find_none_means_absent(s: Seq<CacheEntryV>, key: Seq<char>)
    requires
        cache_wf(s),
        find_entry(s, key) is None,
    ensures
        forall|i: int| 0 <= i < s.len() ==> #[trigger] s[i].dependencies[0].input != key,
    decreases s.len(),
{
    if s.len() > 0 {
        assert(s[0].dependencies.len() >= 1);
        assert(cache_wf(s.drop_first())) by {
            assert(forall|i: int|
                0 <= i < s.drop_first().len() ==> #[trigger] s.drop_first()[i] == s[i + 1]);
        }
        lemma_find_none_means_absent(s.drop_first(), key);
        assert forall|i: int| 0 <= i < s.len() implies #[trigger] s[i].dependencies[0].input
            != key by {
            if i > 0 {
                assert(s.drop_first()[i - 1] == s[i]);
            }
        }
    }
}

/// A found key names the matching entry.
proof fn lemma_find_entry_found(s: Seq<CacheEntryV>, key: Seq<char>)
    requires
        find_entry(s, key) matches Some(i),
    ensures
        ({
            let i = find_entry(s, key).unwrap();
            0 <= i < s.len() && s[i].dependencies.len() > 0 && s[i].dependencies[0].input == key
        }),
    decreases s.len(),
{
    if s.len() == 0 {
    } else if s[0].dependencies.len() > 0 && s[0].dependencies[0].input == key {
    } else {
        lemma_find_entry_found(s.drop_first(), key);
    }
}

/// Entries before the found one do not match the key.
proof fn lemma_find_entry_first(s: Seq<CacheEntryV>, key: Seq<char>)
    requires
        find_entry(s, key) matches Some(i),
    ensures
        ({
            let i = find_entry(s, key).unwrap();
            forall|j: int|
                0 <= j < i ==> !(#[trigger] s[j].dependencies.len() > 0
                    && s[j].dependencies[0].input == key)
        }),
    decreases s.len(),
{
    if s.len() == 0 {
    } else if s[0].dependencies.len() > 0 && s[0].dependencies[0].input == key {
    } else {
        lemma_find_entry_first(s.drop_first(), key);
        lemma_find_entry_found(s, key);
        let i = find_entry(s, key).unwrap();
        assert(find_entry(s.drop_first(), key) matches Some(p) && i == p + 1);
        assert forall|j: int| 0 <= j < i implies !(#[trigger] s[j].dependencies.len() > 0
            && s[j].dependencies[0].input == key) by {
            if j > 0 {
                assert(s.drop_first()[j - 1] == s[j]);
                assert(!(s.drop_first()[j - 1].dependencies.len() > 0 && s.drop_first()[j
                    - 1].dependencies[0].input == key));
            }
        }
    }
}

/// No match anywhere when the key was not found. Unlike
/// `lemma_find_none_means_absent` this needs no well-formedness.
proof fn lemma_find_none_no_match(s: Seq<CacheEntryV>, key: Seq<char>)
    requires
        find_entry(s, key) is None,
    ensures
        forall|j: int|
            0 <= j < s.len() ==> !(#[trigger] s[j].dependencies.len() > 0
                && s[j].dependencies[0].input == key),
    decreases s.len(),
{
    if s.len() > 0 {
        lemma_find_none_no_match(s.drop_first(), key);
        assert forall|j: int| 0 <= j < s.len() implies !(#[trigger] s[j].dependencies.len() > 0
            && s[j].dependencies[0].input == key) by {
            if j > 0 {
                assert(s.drop_first()[j - 1] == s[j]);
            }
        }
    }
}

impl PostCache {
    /// The position of the entry stored under a primary input path.
    fn position_of(&self, path: &str) -> (r: Option<usize>)
        ensures
            match r {
                Some(i) => find_entry(cache_view(*self), path@) == Some(i as int) && i
                    < self.resources@.len(),
                None => find_entry(cache_view(*self), path@) is None,
            },
    {
        let ghost cv = cache_view(*self);
        let mut i: usize = 0;

        while i < self.resources.len()
            invariant
                i <= self.resources@.len(),
                cv == cache_view(*self),
                cv.len() == self.resources@.len(),
                forall|j: int|
                    0 <= j < i ==> !(#[trigger] cv[j].dependencies.len() > 0
                        && cv[j].dependencies[0].input == path@),
            decreases self.resources.len() - i,
        {
            let e = &self.resources[i];
            if e.dependencies.len() > 0 && crate::text::str_equal(
                e.dependencies[0].input.as_str(),
                path,
            ) {
                proof {
                    assert(cv[i as int] == entry_view(self.resources@[i as int]));
                    lemma_find_entry_at(cv, path@, i as int);
                }
                return Some(i);
            }
            proof {
                assert(cv[i as int] == entry_view(self.resources@[i as int]));
            }
            i += 1;
        }

        proof {
            lemma_find_entry_at(cv, path@, cv.len() as int);
        }
        None
    }

    /// Builds the cache entry for a finished render and stores it
    /// under the primary input path, unless an equal entry is already
    /// stored there. Reports whether anything changed.
    pub fn insert(
        &mut self,
        input_basedir: &str,
        input_file: &str,
        output_basedir: &str,
        output_file: &str,
        post: &crate::post::Post,
        renderer: &Renderer,
    ) -> (r: bool)
        requires
            cache_wf(cache_view(*old(self))),
        ensures
            ({
                let e = built_entry(
                    input_basedir@,
                    input_file@,
                    output_basedir@,
                    output_file@,
                    meta_view(post.metadata),
                    post.url@,
                    views_of(renderer.file_mentions),
                );
                let res = insert_result(cache_view(*old(self)), input_file@, e);
                r == res.0 && cache_view(*final(self)) == res.1
            }),
            cache_wf(cache_view(*final(self))),
    {
        let ghost e_spec = built_entry(
            input_basedir@,
            input_file@,
            output_basedir@,
            output_file@,
            meta_view(post.metadata),
            post.url@,
            views_of(renderer.file_mentions),
        );

        let mut deps: Vec<Dependency> = Vec::new();
        deps.push(
            Dependency { input: input_file.to_owned(), output: output_file.to_owned() },
        );

        let mentions = renderer.file_mentions();
        let mut i: usize = 0;

        proof {
            assert(deps@.len() == 1);
            assert(dep_view(deps@[0]) == (DependencyV { input: input_file@, output: output_file@ }));
            assert(e_spec.dependencies[0] == (DependencyV {
                input: input_file@,
                output: output_file@,
            }));
            assert(deps_view(deps@) =~= e_spec.dependencies.subrange(0, 1));
        }

        while i < mentions.len()
            invariant
                i <= mentions@.len(),
                mentions == renderer.file_mentions,
                e_spec.dependencies.len() == 1 + mentions@.len(),
                deps_view(deps@) == e_spec.dependencies.subrange(0, 1 + i as int),
                e_spec == built_entry(
                    input_basedir@,
                    input_file@,
                    output_basedir@,
                    output_file@,
                    meta_view(post.metadata),
                    post.url@,
                    views_of(renderer.file_mentions),
                ),
            decreases mentions.len() - i,
        {
            let m = &mentions[i];
            let input_path = crate::transformer::join_path(input_basedir, m);
            let output_raw = crate::transformer::join_path(output_basedir, m);
            let output_path = crate::transformer::transform_filename(&output_raw);
            let ghost dpre = deps@;
            deps.push(
                Dependency {
                    input: crate::ext::chars_to_string(&input_path),
                    output: crate::ext::chars_to_string(&output_path),
                },
            );
            proof {
                let mseq = views_of(renderer.file_mentions);
                assert(mseq[i as int] == mentions@[i as int]@);
                assert(e_spec.dependencies[1 + i as int] == mseq.map_values(
                    |m2: Seq<char>|
                        DependencyV {
                            input: join_spec(input_basedir@, m2),
                            output: transform_filename_spec(join_spec(output_basedir@, m2)),
                        },
                )[i as int]);
                assert(e_spec.dependencies[1 + i as int] == (DependencyV {
                    input: join_spec(input_basedir@, mentions@[i as int]@),
                    output: transform_filename_spec(
                        join_spec(output_basedir@, mentions@[i as int]@),
                    ),
                }));
                assert(deps@ == dpre.push(deps@.last()));
                assert(deps_view(dpre).len() == dpre.len());
                assert(dpre.len() == 1 + i as int);
                assert(deps@.len() == 2 + i as int);
                assert(dep_view(deps@.last()) == e_spec.dependencies[1 + i as int]);
                assert forall|j: int| 0 <= j < 2 + i as int implies #[trigger] deps_view(deps@)[j]
                    == e_spec.dependencies.subrange(0, 2 + i as int)[j] by {
                    assert(deps_view(deps@)[j] == dep_view(deps@[j]));
                    if j < 1 + i {
                        assert(deps@[j] == dpre[j]);
                        assert(deps_view(dpre)[j] == dep_view(dpre[j]));
                        assert(deps_view(dpre)[j] == e_spec.dependencies.subrange(0, 1 + i as int)[j]);
                    } else {
                        assert(deps@[j] == deps@.last());
                    }
                }
                assert(deps_view(deps@) =~= e_spec.dependencies.subrange(0, 2 + i as int));
            }
            i += 1;
        }

        proof {
            assert(e_spec.dependencies.subrange(0, e_spec.dependencies.len() as int)
                =~= e_spec.dependencies);
        }

        let entry = CacheEntry {
            dependencies: deps,
            metadata: post.metadata.clone(),
            url: post.url.clone(),
        };
        proof {
            assert(entry_view(entry) == e_spec);
        }

        let ghost pre = cache_view(*self);

        match self.position_of(input_file) {
            Some(at) => {
                if entry_equal(&self.resources[at], &entry) {
                    proof {
                        assert(pre[at as int] == entry_view(self.resources@[at as int]));
                    }
                    false
                } else {
                    proof {
                        assert(pre[at as int] == entry_view(self.resources@[at as int]));
                        lemma_find_entry_found(pre, input_file@);
                    }
                    let _old = self.resources.remove(at);
                    self.resources.insert(at, entry);
                    proof {
                        assert(cache_view(*self) =~= pre.update(at as int, e_spec));
                        assert forall|x: int, y: int| 0 <= x < y < pre.len() implies #[trigger] cache_view(
                            *self,
                        )[x].dependencies[0].input != #[trigger] cache_view(
                            *self,
                        )[y].dependencies[0].input by {
                            assert(pre[x].dependencies[0].input != pre[y].dependencies[0].input);
                            if x == at {
                                assert(cache_view(*self)[x] == e_spec);
                                assert(e_spec.dependencies[0].input
                                    == pre[at as int].dependencies[0].input);
                            }
                            if y == at {
                                assert(cache_view(*self)[y] == e_spec);
                                assert(e_spec.dependencies[0].input
                                    == pre[at as int].dependencies[0].input);
                            }
                        }
                    }
                    true
                }
            },
            None => {
                proof {
                    lemma_find_none_means_absent(pre, input_file@);
                }
                self.push_checked(entry);
                true
            },
        }
    }
}

/// Inserting the same entry twice reports no change on the second
/// insert: the first insert stored exactly the entry the second one
/// finds.
pub proof fn lemma_insert_idempotent(s: Seq<CacheEntryV>, key: Seq<char>, e: CacheEntryV)
    requires
        cache_wf(s),
        e.dependencies.len() >= 1,
        e.dependencies[0].input == key,
    ensures
        insert_result(insert_result(s, key, e).1, key, e).0 == false,
{
    let s1 = insert_result(s, key, e).1;
    match find_entry(s, key) {
        Some(i) => {
            lemma_find_entry_found(s, key);
            lemma_find_entry_first(s, key);
            if s[i] != e {
                assert(forall|j: int|
                    0 <= j < i ==> #[trigger] s.update(i, e)[j] == s[j]);
                lemma_find_entry_at(s.update(i, e), key, i);
                assert(s1[i] == e);
            } else {
                assert(s1 == s);
            }
        },
        None => {
            lemma_find_none_no_match(s, key);
            assert(forall|j: int|
                0 <= j < s.len() ==> #[trigger] s.push(e)[j] == s[j]);
            lemma_find_entry_at(s.push(e), key, s.len() as int);
            assert(s1[s.len() as int] == e);
        },
    }
}

} // verus!

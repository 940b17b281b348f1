//! Serving content: the lookup-then-cache flow that every read handler
//! follows, split so that the one disk read sits between two verified steps.
//!
//! A read first consults the index snapshot (absent paths are `NotFound`),
//! then the cache; on a miss it reports the physical path to read. Once the
//! caller has the raw text from disk, `finish_load` renders it, stores the
//! pair, and hands both back. Concurrent misses for the same path may both
//! run the load; the cache converges either way.

use vstd::prelude::*;

use crate::cache::{CacheEntryView, ContentCache};
use crate::directory::{
    index_has, index_path_of, index_sorted, lemma_index_path_at, listing_prefix, MarkdownFile,
};
use crate::markdown::{html_of, MarkdownParser};
use crate::strings::{is_prefix, str_eq, str_starts_with};

verus! {

/// What a read of a logical path finds before any disk work.
pub enum FetchOutcome {
    /// Both parts were cached.
    Cached { raw: String, rendered: String },
    /// The path is known but not cached: read this physical path, then call
    /// `finish_load`.
    NeedsLoad { physical: String },
    /// The path is absent from the index.
    NotFound,
}

/// Consult the index snapshot and then the cache for a logical path.
pub fn fetch_content(files: &Vec<MarkdownFile>, cache: &ContentCache, name: &str) -> (r:
    FetchOutcome)
    requires
        index_sorted(files@),
        cache.wf(),
    ensures
        !index_has(files@, name@) ==> r is NotFound,
        index_has(files@, name@) && cache@.contains_key(name@) ==> (r matches FetchOutcome::Cached
            { raw, rendered } && cache@[name@] == (CacheEntryView {
            raw: raw@,
            rendered: rendered@,
        })),
        index_has(files@, name@) && !cache@.contains_key(name@) ==> (r
            matches FetchOutcome::NeedsLoad { physical } && physical@ == index_path_of(
            files@,
            name@,
        )),
{
    let mut i: usize = 0;
    while i < files.len()
        invariant
            i <= files@.len(),
            index_sorted(files@),
            cache.wf(),
            forall|j: int| 0 <= j < i ==> (#[trigger] files@[j].name@) != name@,
        decreases files@.len() - i,
    {
        if str_eq(files[i].name.as_str(), name) {
            proof {
                lemma_index_path_at(files@, i as int);
            }
            match cache.get(name) {
                Some(entry) => {
                    return FetchOutcome::Cached { raw: entry.0, rendered: entry.1 };
                },
                None => {
                    return FetchOutcome::NeedsLoad { physical: files[i].path.clone() };
                },
            }
        }
        i = i + 1;
    }
    proof {
        assert(!index_has(files@, name@));
    }
    FetchOutcome::NotFound
}

/// After the raw text of a logical path was read from disk: render it, store
/// the pair in the cache, and hand both back. The raw text comes back
/// exactly as given.
pub fn finish_load(cache: &mut ContentCache, name: &str, raw: String) -> (r: (String, String))
    requires
        old(cache).wf(),
    ensures
        final(cache).wf(),
        r.0@ == raw@,
        r.1@ == html_of(raw@),
        final(cache)@ == old(cache)@.insert(
            name@,
            CacheEntryView { raw: raw@, rendered: html_of(raw@) },
        ),
{
    let parser = MarkdownParser::new(raw);
    let rendered = parser.to_html();
    let raw_back: String = parser.raw_content().to_owned();
    cache.store(name.to_owned(), raw_back.clone(), rendered.clone());
    (raw_back, rendered)
}

/// A directory path is reachable when it is the root, names a document, or
/// is a proper prefix of one.
pub open spec fn path_reachable(files: Seq<MarkdownFile>, p: Seq<char>) -> bool {
    ||| p.len() == 0
    ||| exists|i: int|
        0 <= i < files.len() && ((#[trigger] files[i].name@) == p || is_prefix(
            p + seq!['/'],
            files[i].name@,
        ))
}

/// Decide whether a normalized directory path exists in the index snapshot:
/// the root always does; any other path must name a document or be a proper
/// prefix of one.
pub fn path_exists(files: &Vec<MarkdownFile>, p: &str) -> (r: bool)
    ensures
        r == path_reachable(files@, p@),
{
    if p.unicode_len() == 0 {
        return true;
    }
    let mut prefix = p.to_owned();
    prefix.append("/");
    proof {
        reveal_strlit("/");
        assert("/"@ =~= seq!['/']);
        assert(prefix@ == p@ + seq!['/']);
    }
    let mut i: usize = 0;
    while i < files.len()
        invariant
            i <= files@.len(),
            prefix@ == p@ + seq!['/'],
            forall|j: int|
                0 <= j < i ==> !((#[trigger] files@[j].name@) == p@ || is_prefix(
                    p@ + seq!['/'],
                    files@[j].name@,
                )),
        decreases files@.len() - i,
    {
        if str_eq(files[i].name.as_str(), p) || str_starts_with(
            files[i].name.as_str(),
            prefix.as_str(),
        ) {
            return true;
        }
        i = i + 1;
    }
    false
}

} // verus!

//! Staleness checks of source files against the cache, one at a time or over a
//! discovered file set.
use vstd::prelude::*;
use crate::cache::{is_stale_content, record_content, xxh3_fingerprint, xxh3_of};
use crate::config::Config;

verus! {

/// The bytes that reading a file gave, if it could be read.
pub open spec fn content_view(content: Option<&[u8]>) -> Option<Seq<u8>> {
    match content {
        Some(c) => Some(c@),
        None => None,
    }
}

/// Checks whether the file at `p`, whose content reading gave as `content`
/// (`None` where it could not be read), is stale, and records its fingerprint
/// in the configuration's cache.
pub fn check_incremental(p: &str, content: Option<&[u8]>, config: &mut Config) -> (r: bool)
    requires
        old(config).wf(),
    ensures
        final(config).wf(),
        r == is_stale_content(old(config).cache.fingerprints(), p@, content_view(content)),
        final(config).cache.fingerprints() == record_content(
            old(config).cache.fingerprints(),
            p@,
            content_view(content),
        ),
        final(config).cache.releases == old(config).cache.releases,
        final(config).cache.url_libs == old(config).cache.url_libs,
        (Config { cache: final(config).cache, ..*old(config) }) == *final(config),
{
    match content {
        Some(bytes) => {
            let h = xxh3_fingerprint(bytes);
            config.cache.observe(p, h)
        },
        None => true,
    }
}


/// The bytes that reading each file gave, where it could be read.
pub open spec fn contents_view(contents: Seq<Option<Vec<u8>>>) -> Seq<Option<Seq<u8>>> {
    contents.map_values(|o: Option<Vec<u8>>| match o {
        Some(v) => Some(v@),
        None => None,
    })
}

/// Checks the first `n` files in order against the fingerprints `m`: the files
/// found stale, in order, and the fingerprints after the checks.
pub open spec fn stale_selection(
    m: Map<Seq<char>, u64>,
    files: Seq<Seq<char>>,
    contents: Seq<Option<Seq<u8>>>,
    n: nat,
) -> (Seq<Seq<char>>, Map<Seq<char>, u64>)
    decreases n,
{
    if n == 0 {
        (Seq::empty(), m)
    } else {
        let (sel, m1) = stale_selection(m, files, contents, (n - 1) as nat);
        let f = files[n - 1];
        let c = contents[n - 1];
        let m2 = record_content(m1, f, c);
        if is_stale_content(m1, f, c) {
            (sel.push(f), m2)
        } else {
            (sel, m2)
        }
    }
}

/// Keeps, in order, the files that are stale, checking each one against the
/// cache as `check_incremental` does; `contents[i]` is what reading `files[i]`
/// gave.
pub fn filter_stale(files: &Vec<String>, contents: &Vec<Option<Vec<u8>>>, config: &mut Config) -> (r: Vec<String>)
    requires
        old(config).wf(),
        files@.len() == contents@.len(),
    ensures
        final(config).wf(),
        ({
            let (sel, m) = stale_selection(
                old(config).cache.fingerprints(),
                files@.map_values(|f: String| f@),
                contents_view(contents@),
                files@.len(),
            );
            &&& r@.map_values(|f: String| f@) == sel
            &&& final(config).cache.fingerprints() == m
        }),
        (Config { cache: final(config).cache, ..*old(config) }) == *final(config),
{
    let ghost m0 = config.cache.fingerprints();
    let ghost fs = files@.map_values(|f: String| f@);
    let ghost cs = contents_view(contents@);
    let ghost c0 = *config;
    let mut out: Vec<String> = Vec::new();
    let mut i: usize = 0;
    while i < files.len()
        invariant
            files@.len() == contents@.len(),
            i <= files@.len(),
            config.wf(),
            fs == files@.map_values(|f: String| f@),
            cs == contents_view(contents@),
            out@.map_values(|f: String| f@) == stale_selection(m0, fs, cs, i as nat).0,
            config.cache.fingerprints() == stale_selection(m0, fs, cs, i as nat).1,
            (Config { cache: config.cache, ..c0 }) == *config,
        decreases files@.len() - i,
    {
        let content: Option<&[u8]> = match &contents[i] {
            Some(v) => Some(v.as_slice()),
            None => None,
        };
        assert(content_view(content) == cs[i as int]);
        let stale = check_incremental(files[i].as_str(), content, config);
        let ghost prev = out@;
        if stale {
            out.push(files[i].clone());
            assert(out@.map_values(|f: String| f@) =~= prev.map_values(|f: String| f@).push(fs[i as int]));
        }
        i = i + 1;
    }
    out
}

/// A file whose unchanged content was just checked is not stale when checked
/// again.
pub proof fn lemma_recheck_unchanged_not_stale(m: Map<Seq<char>, u64>, path: Seq<char>, content: Seq<u8>)
    ensures
        !is_stale_content(record_content(m, path, Some(content)), path, Some(content)),
{
}

/// A file checked with one content and then with another content is stale on
/// the second check, wherever the two contents differ, as long as their
/// fingerprints differ.
pub proof fn lemma_changed_content_stale(
    m: Map<Seq<char>, u64>,
    path: Seq<char>,
    before: Seq<u8>,
    after: Seq<u8>,
)
    requires
        xxh3_of(before) != xxh3_of(after),
    ensures
        is_stale_content(record_content(m, path, Some(before)), path, Some(after)),
{
}

/// A file that the cache has never seen is stale.
pub proof fn lemma_unseen_stale(m: Map<Seq<char>, u64>, path: Seq<char>, content: Option<Seq<u8>>)
    requires
        !m.contains_key(path),
    ensures
        is_stale_content(m, path, content),
{
}

/// After `k` checks, each checked readable file's fingerprint is recorded,
/// when the paths are distinct.
proof fn lemma_selection_records(
    m: Map<Seq<char>, u64>,
    files: Seq<Seq<char>>,
    contents: Seq<Option<Seq<u8>>>,
    k: nat,
)
    requires
        k <= files.len(),
        files.len() == contents.len(),
        forall|i: int, j: int| 0 <= i < j < files.len() ==> files[i] != files[j],
        forall|i: int| 0 <= i < contents.len() ==> (#[trigger] contents[i]).is_some(),
    ensures
        forall|j: int|
            0 <= j < k ==> stale_selection(m, files, contents, k).1.contains_key(#[trigger] files[j])
                && stale_selection(m, files, contents, k).1[files[j]] == xxh3_of(contents[j].unwrap()),
    decreases k,
{
    if k > 0 {
        lemma_selection_records(m, files, contents, (k - 1) as nat);
        assert(contents[k - 1].is_some());
    }
}

/// A second pass over the same files, all readable and unchanged, keeps the
/// fingerprints as they were and selects nothing.
proof fn lemma_second_pass_from(
    m1: Map<Seq<char>, u64>,
    files: Seq<Seq<char>>,
    contents: Seq<Option<Seq<u8>>>,
    k: nat,
)
    requires
        k <= files.len(),
        files.len() == contents.len(),
        forall|j: int|
            0 <= j < files.len() ==> m1.contains_key(#[trigger] files[j]) && m1[files[j]] == xxh3_of(
                contents[j].unwrap(),
            ),
        forall|i: int| 0 <= i < contents.len() ==> (#[trigger] contents[i]).is_some(),
    ensures
        stale_selection(m1, files, contents, k).0.len() == 0,
        stale_selection(m1, files, contents, k).1 == m1,
    decreases k,
{
    if k > 0 {
        lemma_second_pass_from(m1, files, contents, (k - 1) as nat);
        let j = k - 1;
        assert(contents[j].is_some());
        assert(m1.contains_key(files[j]));
        assert(m1.insert(files[j], xxh3_of(contents[j].unwrap())) =~= m1);
    }
}

/// Resolving the same files again, all readable and with unchanged content,
/// selects none of them; the paths are distinct, as a directory walk gives
/// them.
pub proof fn lemma_unchanged_rebuild_selects_nothing(
    m: Map<Seq<char>, u64>,
    files: Seq<Seq<char>>,
    contents: Seq<Option<Seq<u8>>>,
)
    requires
        files.len() == contents.len(),
        forall|i: int, j: int| 0 <= i < j < files.len() ==> files[i] != files[j],
        forall|i: int| 0 <= i < contents.len() ==> (#[trigger] contents[i]).is_some(),
    ensures
        ({
            let m1 = stale_selection(m, files, contents, files.len()).1;
            stale_selection(m1, files, contents, files.len()).0.len() == 0
        }),
{
    let m1 = stale_selection(m, files, contents, files.len()).1;
    lemma_selection_records(m, files, contents, files.len());
    assert forall|j: int| 0 <= j < files.len() implies m1.contains_key(#[trigger] files[j]) && m1[files[j]]
        == xxh3_of(contents[j].unwrap()) by {
    }
    lemma_second_pass_from(m1, files, contents, files.len());
}

} // verus!

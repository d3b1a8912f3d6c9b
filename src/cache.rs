//! The persisted build cache and the content-fingerprint staleness store that
//! lives in it.
use vstd::prelude::*;

verus! {

/// What `xxhash_rust::xxh3::xxh3_64` returns for the given bytes.
pub uninterp spec fn xxh3_of(bytes: Seq<u8>) -> u64;

/// Relies on `xxhash_rust::xxh3::xxh3_64`: the 64-bit XXH3 hash of the bytes
/// with the default seed and secret, a function of the bytes alone.
#[verifier::external_body]
pub(crate) fn xxh3_fingerprint(bytes: &[u8]) -> (r: u64)
    ensures
        r == xxh3_of(bytes@),
{
    xxhash_rust::xxh3::xxh3_64(bytes)
}

/// Whether a file at `path` whose content now hashes to `fingerprint` is stale
/// against the recorded fingerprints `m`: it was never seen, or its recorded
/// fingerprint differs.
pub open spec fn is_stale(m: Map<Seq<char>, u64>, path: Seq<char>, fingerprint: u64) -> bool {
    !(m.contains_key(path) && m[path] == fingerprint)
}

/// Whether a file is stale given what reading it gave: a file that could not be
/// read is always stale.
pub open spec fn is_stale_content(
    m: Map<Seq<char>, u64>,
    path: Seq<char>,
    content: Option<Seq<u8>>,
) -> bool {
    match content {
        Some(c) => is_stale(m, path, xxh3_of(c)),
        None => true,
    }
}

/// The recorded fingerprints after a staleness check: a readable file's
/// fingerprint is recorded (a no-op when it was already recorded), an
/// unreadable file leaves them as they were.
pub open spec fn record_content(
    m: Map<Seq<char>, u64>,
    path: Seq<char>,
    content: Option<Seq<u8>>,
) -> Map<Seq<char>, u64> {
    match content {
        Some(c) => m.insert(path, xxh3_of(c)),
        None => m,
    }
}

/// The build cache: one fingerprint per source path, the release history and
/// the URLs of fetched libraries.
#[derive(Debug)]
pub struct Cache {
    pub files: Vec<(String, u64)>,
    pub releases: Vec<Option<(String, String)>>,
    pub url_libs: Vec<String>,
}

impl Default for Cache {
    fn default() -> (r: Cache)
        ensures
            r.files@.len() == 0,
            r.releases@.len() == 0,
            r.url_libs@.len() == 0,
    {
        Cache { files: Vec::new(), releases: Vec::new(), url_libs: Vec::new() }
    }
}

impl Cache {
    /// At most one record per path.
    pub open spec fn wf(&self) -> bool {
        forall|i: int, j: int|
            0 <= i < j < self.files@.len() ==> #[trigger] self.files@[i].0@ != #[trigger] self.files@[j].0@
    }

    /// The recorded fingerprints, keyed by path.
    pub open spec fn fingerprints(&self) -> Map<Seq<char>, u64> {
        Map::new(
            |k: Seq<char>| exists|i: int| 0 <= i < self.files@.len() && #[trigger] self.files@[i].0@ == k,
            |k: Seq<char>|
                self.files@[choose|i: int| 0 <= i < self.files@.len() && #[trigger] self.files@[i].0@ == k].1,
        )
    }

    /// Records a release archive by its name and version.
    pub fn record_release(&mut self, jar: String, version: String)
        ensures
            final(self).files == old(self).files,
            final(self).releases@ == old(self).releases@.push(Some((jar, version))),
            final(self).url_libs == old(self).url_libs,
    {
        self.releases.push(Some((jar, version)));
    }

    /// Records the URL of a fetched library.
    pub fn record_url(&mut self, url: String)
        ensures
            final(self).files == old(self).files,
            final(self).releases == old(self).releases,
            final(self).url_libs@ == old(self).url_libs@.push(url),
    {
        self.url_libs.push(url);
    }

    /// The position of the record of `path`, if there is one.
    fn find(&self, path: &String) -> (r: Option<usize>)
        ensures
            match r {
                Some(i) => i < self.files@.len() && self.files@[i as int].0@ == path@,
                None => forall|i: int| 0 <= i < self.files@.len() ==> #[trigger] self.files@[i].0@ != path@,
            },
    {
        let mut i: usize = 0;
        while i < self.files.len()
            invariant
                i <= self.files@.len(),
                forall|j: int| 0 <= j < i ==> #[trigger] self.files@[j].0@ != path@,
            decreases self.files@.len() - i,
        {
            if self.files[i].0 == *path {
                return Some(i);
            }
            i = i + 1;
        }
        None
    }

    /// Records `fingerprint` as the content fingerprint of `path` and says
    /// whether the file was stale: never seen before, or seen with another
    /// fingerprint.
    pub fn observe(&mut self, path: &str, fingerprint: u64) -> (r: bool)
        requires
            old(self).wf(),
        ensures
            final(self).wf(),
            r == is_stale(old(self).fingerprints(), path@, fingerprint),
            final(self).fingerprints() == old(self).fingerprints().insert(path@, fingerprint),
            final(self).releases == old(self).releases,
            final(self).url_libs == old(self).url_libs,
    {
        let key = String::from_str(path);
        let ghost m0 = self.fingerprints();
        match self.find(&key) {
            Some(i) => {
                assert(m0.contains_key(path@));
                let ghost j = choose|j: int| 0 <= j < self.files@.len() && #[trigger] self.files@[j].0@ == path@;
                assert(j == i as int);
                if self.files[i].1 == fingerprint {
                    assert(m0.insert(path@, fingerprint) =~= m0);
                    false
                } else {
                    let ghost s0 = self.files@;
                    self.files.set(i, (key, fingerprint));
                    assert(self.files@ == s0.update(i as int, self.files@[i as int]));
                    proof { self.lemma_update_fingerprints(s0, i as int, m0); }
                    true
                }
            },
            None => {
                let ghost s0 = self.files@;
                self.files.push((key, fingerprint));
                proof { self.lemma_push_fingerprints(s0, m0); }
                true
            },
        }
    }

    proof fn lemma_update_fingerprints(&self, s0: Seq<(String, u64)>, i: int, m0: Map<Seq<char>, u64>)
        requires
            0 <= i < s0.len(),
            self.files@ =~= s0.update(i, self.files@[i]),
            self.files@[i].0@ == s0[i].0@,
            forall|a: int, b: int| 0 <= a < b < s0.len() ==> #[trigger] s0[a].0@ != #[trigger] s0[b].0@,
            m0 == Map::new(
                |k: Seq<char>| exists|j: int| 0 <= j < s0.len() && #[trigger] s0[j].0@ == k,
                |k: Seq<char>| s0[choose|j: int| 0 <= j < s0.len() && #[trigger] s0[j].0@ == k].1,
            ),
        ensures
            self.wf(),
            self.fingerprints() == m0.insert(s0[i].0@, self.files@[i].1),
    {
        let s = self.files@;
        assert forall|a: int, b: int| 0 <= a < b < s.len() implies #[trigger] s[a].0@ != #[trigger] s[b].0@ by {
            assert(s0[a].0@ != s0[b].0@);
        }
        let m1 = self.fingerprints();
        let k0 = s0[i].0@;
        assert forall|k: Seq<char>| #[trigger] m1.contains_key(k) == m0.insert(k0, s[i].1).contains_key(k) by {
            if m1.contains_key(k) {
                let j = choose|j: int| 0 <= j < s.len() && #[trigger] s[j].0@ == k;
                assert(s0[j].0@ == k);
            }
            if m0.contains_key(k) {
                let j = choose|j: int| 0 <= j < s0.len() && #[trigger] s0[j].0@ == k;
                assert(s[j].0@ == k);
            }
            if k == k0 {
                assert(s[i].0@ == k);
            }
        }
        assert forall|k: Seq<char>| #[trigger] m1.contains_key(k) implies m1[k] == m0.insert(k0, s[i].1)[k] by {
            let j = choose|j: int| 0 <= j < s.len() && #[trigger] s[j].0@ == k;
            if k == k0 {
                assert(s[i].0@ == k);
            } else {
                assert(s0[j].0@ == k);
                let j0 = choose|j: int| 0 <= j < s0.len() && #[trigger] s0[j].0@ == k;
                assert(j0 == j);
            }
        }
        assert(m1 =~= m0.insert(k0, s[i].1));
    }

    proof fn lemma_push_fingerprints(&self, s0: Seq<(String, u64)>, m0: Map<Seq<char>, u64>)
        requires
            s0.len() + 1 == self.files@.len(),
            self.files@ =~= s0.push(self.files@[s0.len() as int]),
            forall|j: int| 0 <= j < s0.len() ==> #[trigger] s0[j].0@ != self.files@[s0.len() as int].0@,
            forall|a: int, b: int| 0 <= a < b < s0.len() ==> #[trigger] s0[a].0@ != #[trigger] s0[b].0@,
            m0 == Map::new(
                |k: Seq<char>| exists|j: int| 0 <= j < s0.len() && #[trigger] s0[j].0@ == k,
                |k: Seq<char>| s0[choose|j: int| 0 <= j < s0.len() && #[trigger] s0[j].0@ == k].1,
            ),
        ensures
            self.wf(),
            self.fingerprints() == m0.insert(
                self.files@[s0.len() as int].0@,
                self.files@[s0.len() as int].1,
            ),
    {
        let s = self.files@;
        let n = s0.len() as int;
        let k0 = s[n].0@;
        assert forall|a: int, b: int| 0 <= a < b < s.len() implies #[trigger] s[a].0@ != #[trigger] s[b].0@ by {
            if b == n {
                assert(s0[a].0@ != k0);
            } else {
                assert(s0[a].0@ != s0[b].0@);
            }
        }
        let m1 = self.fingerprints();
        let m2 = m0.insert(k0, s[n].1);
        assert forall|k: Seq<char>| #[trigger] m1.contains_key(k) == m2.contains_key(k) by {
            if m1.contains_key(k) {
                let j = choose|j: int| 0 <= j < s.len() && #[trigger] s[j].0@ == k;
                if j < n {
                    assert(s0[j].0@ == k);
                }
            }
            if m0.contains_key(k) {
                let j = choose|j: int| 0 <= j < s0.len() && #[trigger] s0[j].0@ == k;
                assert(s[j].0@ == k);
            }
            if k == k0 {
                assert(s[n].0@ == k);
            }
        }
        assert forall|k: Seq<char>| #[trigger] m1.contains_key(k) implies m1[k] == m2[k] by {
            let j = choose|j: int| 0 <= j < s.len() && #[trigger] s[j].0@ == k;
            if k == k0 {
                assert(s[n].0@ == k);
            } else {
                assert(j < n);
                assert(s0[j].0@ == k);
                let j0 = choose|j: int| 0 <= j < s0.len() && #[trigger] s0[j].0@ == k;
                assert(j0 == j);
            }
        }
        assert(m1 =~= m2);
    }
}

} // verus!

//! The batched test harness: test files become entry-point names, entry points
//! are handed out in batches no larger than the parallelism, and each batch's
//! outcomes are merged once all its workers have been joined. The caller runs
//! the workers.
use vstd::prelude::*;
use crate::classpath::{join_entries, joined, views};
use crate::paths::{ends_with, replace_char, str_ends_with};

verus! {

/// `file` relative to `root`: all of it under an empty root, nothing when it is
/// the root itself, the rest after `root/` when it lies below it.
pub open spec fn strip_root(file: Seq<char>, root: Seq<char>) -> Option<Seq<char>> {
    if root.len() == 0 {
        Some(file)
    } else if file == root {
        Some(Seq::empty())
    } else if file.len() > root.len() && file.subrange(0, root.len() as int) == root
        && file[root.len() as int] == '/' {
        Some(file.subrange(root.len() as int + 1, file.len() as int))
    } else {
        None
    }
}

/// `rel` without its extension `.ext`, where its file name is a non-empty stem
/// followed by `.ext`; otherwise `rel` itself.
pub open spec fn drop_ext(rel: Seq<char>, ext: Seq<char>) -> Seq<char> {
    let suffix = seq!['.'] + ext;
    let k = rel.len() - suffix.len();
    if ends_with(rel, suffix) && k > 0 && rel[k - 1] != '/' {
        rel.subrange(0, k)
    } else {
        rel
    }
}

/// The entry-point name of a path relative to the test root: separators
/// become dots.
pub open spec fn dotted(rel: Seq<char>) -> Seq<char> {
    replace_char(replace_char(rel, '/', '.'), '\\', '.')
}

/// The entry-point name of the test source `file` under `root`, or `None` when
/// it does not lie under `root`.
pub open spec fn class_name_of(file: Seq<char>, root: Seq<char>, ext: Seq<char>) -> Option<Seq<char>> {
    match strip_root(file, root) {
        Some(rel) => Some(dotted(drop_ext(rel, ext))),
        None => None,
    }
}

/// `s` from index `from` on.
fn tail(s: &str, from: usize) -> (r: String)
    requires
        from <= s@.len(),
    ensures
        r@ == s@.subrange(from as int, s@.len() as int),
{
    let n = s.unicode_len();
    String::from_str(s.substring_char(from, n))
}

/// Whether `s` starts with `prefix`.
fn starts_with(s: &str, prefix: &str) -> (r: bool)
    ensures
        r == (prefix@.len() <= s@.len() && s@.subrange(0, prefix@.len() as int) == prefix@),
{
    let n = s.unicode_len();
    let k = prefix.unicode_len();
    if k > n {
        return false;
    }
    let mut i: usize = 0;
    while i < k
        invariant
            n == s@.len(),
            k == prefix@.len(),
            k <= n,
            i <= k,
            forall|j: int| 0 <= j < i ==> s@[j] == prefix@[j],
        decreases k - i,
    {
        if s.get_char(i) != prefix.get_char(i) {
            assert(s@.subrange(0, k as int)[i as int] != prefix@[i as int]);
            return false;
        }
        i = i + 1;
    }
    assert(s@.subrange(0, k as int) =~= prefix@);
    true
}

/// Replaces every `from` character of `s` by a dot.
fn dots_for(s: &str, from: char) -> (r: String)
    ensures
        r@ == replace_char(s@, from, '.'),
{
    let n = s.unicode_len();
    let mut out = String::new();
    let mut i: usize = 0;
    while i < n
        invariant
            n == s@.len(),
            i <= n,
            out@ == replace_char(s@.subrange(0, i as int), from, '.'),
        decreases n - i,
    {
        let c = s.get_char(i);
        if c == from {
            out.append(".");
            proof { reveal_strlit("."); }
        } else {
            out.append(s.substring_char(i, i + 1));
        }
        assert(s@.subrange(0, i + 1) =~= s@.subrange(0, i as int).push(c));
        assert(out@ =~= replace_char(s@.subrange(0, i + 1), from, '.'));
        i = i + 1;
    }
    assert(s@.subrange(0, n as int) =~= s@);
    out
}

/// The entry-point name of the test source `file` under `root` whose source
/// extension is `src_ext`: the path below the root without the extension,
/// with dots for separators. `None` when `file` does not lie under `root`.
pub fn test_class_name(file: &str, root: &str, src_ext: &str) -> (r: Option<String>)
    ensures
        match r {
            Some(name) => class_name_of(file@, root@, src_ext@) == Some(name@),
            None => class_name_of(file@, root@, src_ext@).is_none(),
        },
{
    let fnn = file.unicode_len();
    let rn = root.unicode_len();
    let rel: String = if rn == 0 {
        String::from_str(file)
    } else if fnn > rn && starts_with(file, root) && file.get_char(rn) == '/' {
        tail(file, rn + 1)
    } else if fnn == rn && starts_with(file, root) {
        assert(file@ =~= root@);
        String::new()
    } else {
        proof {
            if file@ == root@ {
                assert(file@.subrange(0, rn as int) =~= root@);
            }
        }
        return None;
    };
    assert(strip_root(file@, root@) == Some(rel@));
    let mut suffix = String::new();
    suffix.append(".");
    suffix.append(src_ext);
    proof {
        reveal_strlit(".");
        assert(suffix@ =~= seq!['.'] + src_ext@);
    }
    let rl = rel.as_str().unicode_len();
    let sl = suffix.as_str().unicode_len();
    let stem: String = if str_ends_with(rel.as_str(), suffix.as_str()) && rl - sl > 0
        && rel.as_str().get_char(rl - sl - 1) != '/' {
        String::from_str(rel.as_str().substring_char(0, rl - sl))
    } else {
        rel
    };
    assert(stem@ == drop_ext(strip_root(file@, root@).unwrap(), src_ext@));
    let a = dots_for(stem.as_str(), '/');
    let b = dots_for(a.as_str(), '\\');
    Some(b)
}

/// What one test invocation ended with.
#[derive(Debug)]
pub struct TestOutcome {
    pub class_name: String,
    pub passed: bool,
}

/// Why a harness run stopped.
#[derive(Debug)]
pub enum HarnessError {
    /// A worker of the batch could not be joined.
    JoinFailure,
}

/// The outcomes as plain values: name and whether it passed.
pub open spec fn outcome_views(outs: Seq<TestOutcome>) -> Seq<(Seq<char>, bool)> {
    outs.map_values(|o: TestOutcome| (o.class_name@, o.passed))
}

/// The names of the passed outcomes, in order.
pub open spec fn passed_names(outs: Seq<(Seq<char>, bool)>) -> Seq<Seq<char>>
    decreases outs.len(),
{
    if outs.len() == 0 {
        Seq::empty()
    } else if outs.last().1 {
        passed_names(outs.drop_last()).push(outs.last().0)
    } else {
        passed_names(outs.drop_last())
    }
}

/// The state of a harness run over a list of entry points.
#[derive(Debug)]
pub struct Harness {
    pub entries: Vec<String>,
    pub parallelism: usize,
    pub dispatched: usize,
    pub in_flight: usize,
    pub passed: Vec<String>,
}

impl Harness {
    /// At least one worker per batch; the current batch, if any, is the last
    /// `in_flight` entries handed out and no larger than the parallelism.
    pub open spec fn wf(&self) -> bool {
        &&& self.parallelism > 0
        &&& self.dispatched <= self.entries@.len()
        &&& self.in_flight <= self.dispatched
        &&& self.in_flight <= self.parallelism
    }

    /// Whether every entry point has been handed out and joined.
    pub open spec fn done(&self) -> bool {
        self.in_flight == 0 && self.dispatched == self.entries@.len()
    }

    /// A run over `entries` with batches of at most `parallelism`.
    pub fn new(entries: Vec<String>, parallelism: usize) -> (r: Harness)
        requires
            parallelism > 0,
        ensures
            r.wf(),
            r.entries == entries,
            r.parallelism == parallelism,
            r.dispatched == 0,
            r.in_flight == 0,
            r.passed@.len() == 0,
    {
        Harness { entries, parallelism, dispatched: 0, in_flight: 0, passed: Vec::new() }
    }

    /// Whether every entry point has been handed out and joined.
    pub fn is_done(&self) -> (r: bool)
        ensures
            r == self.done(),
    {
        self.in_flight == 0 && self.dispatched == self.entries.len()
    }

    /// Hands out the next batch: the next consecutive entry points, as many as
    /// the parallelism allows. `None` once all have been handed out. A batch
    /// can only be handed out once the previous one was joined.
    pub fn next_batch(&mut self) -> (r: Option<Vec<String>>)
        requires
            old(self).wf(),
            old(self).in_flight == 0,
        ensures
            final(self).wf(),
            final(self).entries == old(self).entries,
            final(self).parallelism == old(self).parallelism,
            final(self).passed == old(self).passed,
            match r {
                Some(batch) => {
                    let d = old(self).dispatched as int;
                    &&& d < old(self).entries@.len()
                    &&& 0 < batch@.len() <= old(self).parallelism
                    &&& batch@.len() == vstd::math::min(
                        old(self).parallelism as int,
                        old(self).entries@.len() - d,
                    )
                    &&& views(batch@) == views(old(self).entries@.subrange(d, d + batch@.len()))
                    &&& final(self).dispatched == d + batch@.len()
                    &&& final(self).in_flight == batch@.len()
                },
                None => {
                    &&& old(self).dispatched == old(self).entries@.len()
                    &&& final(self).dispatched == old(self).dispatched
                    &&& final(self).in_flight == 0
                },
            },
    {
        let n = self.entries.len();
        if self.dispatched == n {
            return None;
        }
        let left = n - self.dispatched;
        let size = if left < self.parallelism { left } else { self.parallelism };
        let d = self.dispatched;
        let mut batch: Vec<String> = Vec::new();
        let mut i: usize = 0;
        while i < size
            invariant
                d == self.dispatched,
                n == self.entries@.len(),
                d + size <= n,
                i <= size,
                views(batch@) == views(self.entries@.subrange(d as int, d + i)),
            decreases size - i,
        {
            let ghost prev = views(batch@);
            batch.push(self.entries[d + i].clone());
            assert(views(batch@) =~= prev.push(self.entries@[d + i]@));
            assert(self.entries@.subrange(d as int, d + i + 1) =~= self.entries@.subrange(d as int, d + i).push(
                self.entries@[d + i],
            ));
            assert(views(batch@) =~= views(self.entries@.subrange(d as int, d + i + 1)));
            i = i + 1;
        }
        assert(batch@.len() == views(batch@).len());
        self.dispatched = self.dispatched + size;
        self.in_flight = size;
        Some(batch)
    }

    /// Merges the outcomes that the current batch's workers recorded, in the
    /// order they were recorded, once its workers were joined: the names of
    /// the passed ones are added to the passed list, failures are not. Where a
    /// worker could not be joined the run stops with `JoinFailure`.
    pub fn join_batch(&mut self, outcomes: &Vec<TestOutcome>, all_joined: bool) -> (r: Result<(), HarnessError>)
        requires
            old(self).wf(),
            old(self).in_flight > 0,
        ensures
            final(self).wf(),
            final(self).entries == old(self).entries,
            final(self).parallelism == old(self).parallelism,
            final(self).dispatched == old(self).dispatched,
            final(self).in_flight == 0,
            all_joined ==> r is Ok,
            !all_joined ==> r == Err::<(), HarnessError>(HarnessError::JoinFailure),
            all_joined ==> views(final(self).passed@) == views(old(self).passed@) + passed_names(
                outcome_views(outcomes@),
            ),
            !all_joined ==> final(self).passed == old(self).passed,
    {
        self.in_flight = 0;
        if !all_joined {
            return Err(HarnessError::JoinFailure);
        }
        let ghost passed_before = views(self.passed@);
        let ghost h0 = *self;
        let mut i: usize = 0;
        while i < outcomes.len()
            invariant
                i <= outcomes@.len(),
                self.entries == h0.entries,
                self.parallelism == h0.parallelism,
                self.dispatched == h0.dispatched,
                self.in_flight == 0,
                h0.wf(),
                views(self.passed@) == passed_before + passed_names(outcome_views(outcomes@.subrange(0, i as int))),
            decreases outcomes@.len() - i,
        {
            let ghost prev = views(self.passed@);
            let ghost ov = outcome_views(outcomes@.subrange(0, i + 1));
            assert(ov.drop_last() =~= outcome_views(outcomes@.subrange(0, i as int)));
            if outcomes[i].passed {
                self.passed.push(outcomes[i].class_name.clone());
                assert(views(self.passed@) =~= prev.push(outcomes@[i as int].class_name@));
            }
            i = i + 1;
        }
        assert(outcomes@.subrange(0, outcomes@.len() as int) =~= outcomes@);
        Ok(())
    }

    /// The names of the entry points that passed so far.
    pub fn passed_names(&self) -> (r: &Vec<String>)
        ensures
            r == &self.passed,
    {
        &self.passed
    }
}

/// However a run goes, no more entry points are in flight at once than the
/// parallelism: a batch is never larger, and the next one is only handed out
/// once the current one was joined.
pub proof fn lemma_in_flight_bounded(h: Harness)
    requires
        h.wf(),
    ensures
        h.in_flight <= h.parallelism,
{
}

/// A name is among the passed names exactly when some outcome passed under
/// that name.
pub proof fn lemma_passed_names_contains(outs: Seq<(Seq<char>, bool)>, name: Seq<char>)
    ensures
        passed_names(outs).contains(name) <==> exists|i: int| 0 <= i < outs.len() && #[trigger] outs[i] == (name, true),
    decreases outs.len(),
{
    if outs.len() > 0 {
        let rest = outs.drop_last();
        let pr = passed_names(rest);
        let po = passed_names(outs);
        lemma_passed_names_contains(rest, name);
        if exists|i: int| 0 <= i < outs.len() && #[trigger] outs[i] == (name, true) {
            let i = choose|i: int| 0 <= i < outs.len() && #[trigger] outs[i] == (name, true);
            if i == outs.len() - 1 {
                assert(po == pr.push(name));
                assert(po[pr.len() as int] == name);
            } else {
                assert(rest[i] == (name, true));
                assert(pr.contains(name));
                let j = choose|j: int| 0 <= j < pr.len() && pr[j] == name;
                if outs.last().1 {
                    assert(po == pr.push(outs.last().0));
                    assert(po[j] == name);
                } else {
                    assert(po == pr);
                }
            }
        }
        if po.contains(name) {
            let j = choose|j: int| 0 <= j < po.len() && po[j] == name;
            if outs.last().1 {
                assert(po == pr.push(outs.last().0));
                if j == pr.len() {
                    assert(outs[outs.len() - 1] == (name, true));
                } else {
                    assert(pr[j] == name);
                    assert(pr.contains(name));
                    let i = choose|i: int| 0 <= i < rest.len() && #[trigger] rest[i] == (name, true);
                    assert(outs[i] == (name, true));
                }
            } else {
                assert(po == pr);
                assert(pr.contains(name));
                let i = choose|i: int| 0 <= i < rest.len() && #[trigger] rest[i] == (name, true);
                assert(outs[i] == (name, true));
            }
        }
    }
}

/// However the workers' outcomes interleave, the same outcomes give the same
/// set of passed names: only their order can differ.
pub proof fn lemma_passed_set_independent_of_order(a: Seq<(Seq<char>, bool)>, b: Seq<(Seq<char>, bool)>)
    requires
        a.to_multiset() == b.to_multiset(),
    ensures
        passed_names(a).to_set() == passed_names(b).to_set(),
{
    assert forall|name: Seq<char>| #[trigger] passed_names(a).to_set().contains(name) <==> passed_names(
        b,
    ).to_set().contains(name) by {
        lemma_passed_names_contains(a, name);
        lemma_passed_names_contains(b, name);
        a.to_multiset_ensures();
        b.to_multiset_ensures();
        if exists|i: int| 0 <= i < a.len() && #[trigger] a[i] == (name, true) {
            let i = choose|i: int| 0 <= i < a.len() && #[trigger] a[i] == (name, true);
            assert(a.contains((name, true)));
            assert(a.to_multiset().count((name, true)) > 0);
            assert(b.to_multiset().count((name, true)) > 0);
            assert(b.contains((name, true)));
        }
        if exists|i: int| 0 <= i < b.len() && #[trigger] b[i] == (name, true) {
            let i = choose|i: int| 0 <= i < b.len() && #[trigger] b[i] == (name, true);
            assert(b.contains((name, true)));
            assert(b.to_multiset().count((name, true)) > 0);
            assert(a.to_multiset().count((name, true)) > 0);
            assert(a.contains((name, true)));
        }
    }
    assert(passed_names(a).to_set() =~= passed_names(b).to_set());
}

/// The summary of a finished run: `No tests passed.` where nothing passed,
/// else the passed names separated by spaces.
pub fn summary_line(passed: &Vec<String>) -> (r: String)
    ensures
        passed@.len() == 0 ==> r@ == "No tests passed."@,
        passed@.len() > 0 ==> r@ == joined(views(passed@), ' '),
{
    if passed.len() == 0 {
        String::from_str("No tests passed.")
    } else {
        proof { reveal_strlit(" "); }
        join_entries(passed, " ")
    }
}

} // verus!

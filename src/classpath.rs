//! Classpath expansion: `dir/*` entries stand for the archives found in `dir`.
use vstd::prelude::*;
use crate::paths::{ends_with, str_ends_with};

verus! {

/// Whether a classpath entry is a wildcard, `dir/*`.
pub open spec fn is_wildcard(entry: Seq<char>) -> bool {
    ends_with(entry, seq!['/', '*'])
}

/// The directory that a wildcard entry `dir/*` names, or `None` for any other
/// entry.
pub fn wildcard_dir(entry: &str) -> (r: Option<String>)
    ensures
        match r {
            Some(d) => is_wildcard(entry@) && d@ == entry@.subrange(0, entry@.len() - 2),
            None => !is_wildcard(entry@),
        },
{
    proof { reveal_strlit("/*"); }
    assert("/*"@ =~= seq!['/', '*']);
    if str_ends_with(entry, "/*") {
        let n = entry.unicode_len();
        Some(String::from_str(entry.substring_char(0, n - 2)))
    } else {
        None
    }
}

/// Whether a file path has the archive extension `jar`: its file name is a
/// non-empty stem, then `.jar`.
pub open spec fn has_jar_ext(p: Seq<char>) -> bool {
    &&& p.len() >= 5
    &&& p.subrange(p.len() - 4, p.len() as int) == seq!['.', 'j', 'a', 'r']
    &&& p[p.len() - 5] != '/'
}

/// Whether a file path has the archive extension `jar`.
pub fn is_jar(p: &str) -> (r: bool)
    ensures
        r == has_jar_ext(p@),
{
    proof { reveal_strlit(".jar"); }
    assert(".jar"@ =~= seq!['.', 'j', 'a', 'r']);
    let n = p.unicode_len();
    n >= 5 && str_ends_with(p, ".jar") && p.get_char(n - 5) != '/'
}

/// The archives among the first `n` entries of a directory listing, in order.
pub open spec fn jars_in(listing: Seq<Seq<char>>, n: nat) -> Seq<Seq<char>>
    decreases n,
{
    if n == 0 {
        Seq::empty()
    } else if has_jar_ext(listing[n - 1]) {
        jars_in(listing, (n - 1) as nat).push(listing[n - 1])
    } else {
        jars_in(listing, (n - 1) as nat)
    }
}

/// The entries that the first `n` classpath entries expand to: a wildcard to
/// the archives of its directory's listing, any other entry to itself.
pub open spec fn expanded(paths: Seq<Seq<char>>, listings: Seq<Seq<Seq<char>>>, n: nat) -> Seq<Seq<char>>
    decreases n,
{
    if n == 0 {
        Seq::empty()
    } else {
        let rest = expanded(paths, listings, (n - 1) as nat);
        let p = paths[n - 1];
        if is_wildcard(p) {
            rest + jars_in(listings[n - 1], listings[n - 1].len())
        } else {
            rest.push(p)
        }
    }
}

/// The entries joined with `sep` between each two.
pub open spec fn joined(entries: Seq<Seq<char>>, sep: char) -> Seq<char>
    decreases entries.len(),
{
    if entries.len() == 0 {
        Seq::empty()
    } else if entries.len() == 1 {
        entries[0]
    } else {
        joined(entries.drop_last(), sep) + seq![sep] + entries.last()
    }
}

/// The views of a list of strings.
pub open spec fn views(v: Seq<String>) -> Seq<Seq<char>> {
    v.map_values(|s: String| s@)
}

/// Appends clones of `xs` to `out`.
pub(crate) fn push_all(out: &mut Vec<String>, xs: &Vec<String>)
    ensures
        views(final(out)@) == views(old(out)@) + views(xs@),
{
    let ghost o0 = views(out@);
    let mut i: usize = 0;
    while i < xs.len()
        invariant
            i <= xs@.len(),
            views(out@) == o0 + views(xs@.subrange(0, i as int)),
        decreases xs@.len() - i,
    {
        let ghost prev = views(out@);
        out.push(xs[i].clone());
        assert(views(out@) =~= prev.push(xs@[i as int]@));
        assert(views(xs@.subrange(0, i + 1)) =~= views(xs@.subrange(0, i as int)).push(xs@[i as int]@));
        i = i + 1;
    }
    assert(xs@.subrange(0, xs@.len() as int) =~= xs@);
}

/// Joins the entries with the one-character `sep` between each two.
pub fn join_entries(entries: &Vec<String>, sep: &str) -> (r: String)
    requires
        sep@.len() == 1,
    ensures
        r@ == joined(views(entries@), sep@[0]),
{
    let mut out = String::new();
    let mut i: usize = 0;
    while i < entries.len()
        invariant
            sep@.len() == 1,
            i <= entries@.len(),
            out@ == joined(views(entries@.subrange(0, i as int)), sep@[0]),
        decreases entries@.len() - i,
    {
        let ghost prev = views(entries@.subrange(0, i as int));
        if i > 0 {
            out.append(sep);
            assert(sep@ =~= seq![sep@[0]]);
        }
        out.append(entries[i].as_str());
        proof {
            let cur = views(entries@.subrange(0, i + 1));
            assert(cur.drop_last() =~= prev);
            assert(cur.last() == entries@[i as int]@);
            if i == 0 {
                assert(out@ =~= cur[0]);
            } else {
                assert(out@ =~= joined(prev, sep@[0]) + seq![sep@[0]] + cur.last());
            }
        }
        i = i + 1;
    }
    assert(entries@.subrange(0, entries@.len() as int) =~= entries@);
    out
}

/// Joins the entries with `:` between each two.
pub fn join_classpath(entries: &Vec<String>) -> (r: String)
    ensures
        r@ == joined(views(entries@), ':'),
{
    proof { reveal_strlit(":"); }
    join_entries(entries, ":")
}

/// Expands the classpath: each wildcard entry `dir/*` becomes the archives
/// among `listings[i]`, the paths found in `dir` (empty where it could not be
/// read), and every other entry stays; the result is joined with `:`.
pub fn expand_classpath(paths: &Vec<String>, listings: &Vec<Vec<String>>) -> (r: String)
    requires
        paths@.len() == listings@.len(),
    ensures
        r@ == joined(
            expanded(views(paths@), listings@.map_values(|l: Vec<String>| views(l@)), paths@.len()),
            ':',
        ),
{
    let ghost ps = views(paths@);
    let ghost ls = listings@.map_values(|l: Vec<String>| views(l@));
    let mut entries: Vec<String> = Vec::new();
    let mut i: usize = 0;
    while i < paths.len()
        invariant
            paths@.len() == listings@.len(),
            i <= paths@.len(),
            ps == views(paths@),
            ls == listings@.map_values(|l: Vec<String>| views(l@)),
            views(entries@) == expanded(ps, ls, i as nat),
        decreases paths@.len() - i,
    {
        let ghost before = views(entries@);
        match wildcard_dir(paths[i].as_str()) {
            Some(_) => {
                let listing = &listings[i];
                assert(ls[i as int] == views(listing@));
                let mut j: usize = 0;
                while j < listing.len()
                    invariant
                        j <= listing@.len(),
                        ls[i as int] == views(listing@),
                        views(entries@) == before + jars_in(ls[i as int], j as nat),
                    decreases listing@.len() - j,
                {
                    let ghost mid = views(entries@);
                    if is_jar(listing[j].as_str()) {
                        entries.push(listing[j].clone());
                        assert(views(entries@) =~= mid.push(listing@[j as int]@));
                    }
                    assert(views(entries@) =~= before + jars_in(ls[i as int], (j + 1) as nat));
                    j = j + 1;
                }
            },
            None => {
                entries.push(paths[i].clone());
                assert(views(entries@) =~= before.push(ps[i as int]));
            },
        }
        i = i + 1;
    }
    join_classpath(&entries)
}

} // verus!

//! Path text rules: package names to directory paths, joining a path onto a
//! configured root, and matching source-file names.
use vstd::prelude::*;
use crate::config::Config;

verus! {

/// Replaces every `from` character of `s` by `to`.
pub open spec fn replace_char(s: Seq<char>, from: char, to: char) -> Seq<char> {
    s.map_values(|c: char| if c == from { to } else { c })
}

/// Turns a dotted package or class name into a slash-separated path.
pub fn class_to_path(s: &str) -> (r: String)
    ensures
        r@ == replace_char(s@, '.', '/'),
{
    let n = s.unicode_len();
    let mut out = String::new();
    let mut i: usize = 0;
    while i < n
        invariant
            n == s@.len(),
            i <= n,
            out@ == replace_char(s@.subrange(0, i as int), '.', '/'),
        decreases n - i,
    {
        let c = s.get_char(i);
        if c == '.' {
            out.append("/");
        } else {
            out.append(s.substring_char(i, i + 1));
        }
        proof {
            reveal_strlit("/");
            assert(s@.subrange(0, i + 1) =~= s@.subrange(0, i as int).push(c));
        }
        assert(out@ =~= replace_char(s@.subrange(0, i + 1), '.', '/'));
        i = i + 1;
    }
    assert(s@.subrange(0, n as int) =~= s@);
    out
}


/// Whether `s` ends with `suffix`.
pub open spec fn ends_with(s: Seq<char>, suffix: Seq<char>) -> bool {
    s.len() >= suffix.len() && s.subrange(s.len() - suffix.len(), s.len() as int) == suffix
}

/// Whether `s` ends with `suffix`.
pub fn str_ends_with(s: &str, suffix: &str) -> (r: bool)
    ensures
        r == ends_with(s@, suffix@),
{
    let n = s.unicode_len();
    let k = suffix.unicode_len();
    if k > n {
        return false;
    }
    let mut i: usize = 0;
    while i < k
        invariant
            n == s@.len(),
            k == suffix@.len(),
            k <= n,
            i <= k,
            forall|j: int| 0 <= j < i ==> s@[n - k + j] == suffix@[j],
        decreases k - i,
    {
        if s.get_char(n - k + i) != suffix.get_char(i) {
            assert(s@.subrange(n - k, n as int)[i as int] != suffix@[i as int]);
            return false;
        }
        i = i + 1;
    }
    assert(s@.subrange(n - k, n as int) =~= suffix@);
    true
}

/// Whether a file name is a source file of the given extension: the name ends
/// with it.
pub fn is_source_file(name: &str, src_ext: &str) -> (r: bool)
    ensures
        r == ends_with(name@, src_ext@),
{
    str_ends_with(name, src_ext)
}

/// `path` put under `base`: an absolute `path` stands alone; otherwise it is
/// appended to a non-empty `base` with one `/` between them.
pub open spec fn join_path(base: Seq<char>, path: Seq<char>) -> Seq<char> {
    if path.len() > 0 && path[0] == '/' {
        path
    } else if base.len() == 0 {
        path
    } else if base.last() == '/' {
        base + path
    } else {
        base + seq!['/'] + path
    }
}

/// Puts `path` under `base` as `join_path` says.
pub fn join(base: &str, path: &str) -> (r: String)
    ensures
        r@ == join_path(base@, path@),
{
    let bn = base.unicode_len();
    let pn = path.unicode_len();
    if pn > 0 && path.get_char(0) == '/' {
        return String::from_str(path);
    }
    if bn == 0 {
        return String::from_str(path);
    }
    let mut out = String::from_str(base);
    if base.get_char(bn - 1) != '/' {
        out.append("/");
        proof { reveal_strlit("/"); }
    }
    out.append(path);
    out
}

/// The directories of a project that a path can be put under.
#[derive(Debug)]
pub enum PathType {
    SRC,
    SRCNOPKG,
    BIN,
    LIB,
    TEST,
    DOCS,
    RELEASES,
}

/// The configured directory that `ptype` names.
pub open spec fn root_of(config: Config, ptype: PathType) -> Seq<char> {
    match ptype {
        PathType::SRC => config.paths.src@,
        PathType::SRCNOPKG => config.paths.src_nopkg@,
        PathType::BIN => config.paths.bin@,
        PathType::LIB => config.paths.lib@,
        PathType::TEST => config.paths.test@,
        PathType::DOCS => config.paths.docs@,
        PathType::RELEASES => config.paths.releases@,
    }
}

/// Puts `path` under the project directory that `ptype` names.
pub fn forge_sys_path(path: &str, config: &Config, ptype: PathType) -> (r: String)
    ensures
        r@ == join_path(root_of(*config, ptype), path@),
{
    let root: &String = match ptype {
        PathType::SRC => &config.paths.src,
        PathType::SRCNOPKG => &config.paths.src_nopkg,
        PathType::BIN => &config.paths.bin,
        PathType::LIB => &config.paths.lib,
        PathType::TEST => &config.paths.test,
        PathType::DOCS => &config.paths.docs,
        PathType::RELEASES => &config.paths.releases,
    };
    join(root.as_str(), path)
}

/// Where the last `/`-separated segment of the first `n` characters of `s`
/// starts.
pub open spec fn segment_start(s: Seq<char>, n: nat) -> nat
    decreases n,
{
    if n == 0 {
        0
    } else if s[n - 1] == '/' {
        n
    } else {
        segment_start(s, (n - 1) as nat)
    }
}

/// The text after the last `/` of `s`, or all of `s` where it has none.
pub open spec fn last_segment(s: Seq<char>) -> Seq<char> {
    s.subrange(segment_start(s, s.len()) as int, s.len() as int)
}

/// The file name that a download from `url` is stored under: the text after
/// its last `/`.
pub fn url_file_name(url: &str) -> (r: String)
    ensures
        r@ == last_segment(url@),
{
    let n = url.unicode_len();
    let mut i: usize = n;
    while i > 0 && url.get_char(i - 1) != '/'
        invariant
            n == url@.len(),
            i <= n,
            segment_start(url@, n as nat) == segment_start(url@, i as nat),
        decreases i,
    {
        i = i - 1;
    }
    assert(segment_start(url@, i as nat) == i);
    String::from_str(url.substring_char(i, n))
}

} // verus!

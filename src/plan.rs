//! What the build and release commands work on: the source roots to scan and
//! the names of release artefacts.
use vstd::prelude::*;
use crate::config::Config;
use crate::paths::{class_to_path, forge_sys_path, join_path, replace_char, root_of, PathType};

verus! {

/// The source roots of a build.
#[derive(Debug)]
pub struct BuildRoots {
    /// The directory whose sources are built.
    pub root: String,
    /// Whether the sources without a package are built too.
    pub with_default: bool,
}

/// The directory a build of `pkg` scans, and whether the sources without a
/// package are built along: every source for `all` or a full rebuild, the
/// package's directory plus the package-less sources for a package, the
/// package-less sources alone with no package.
pub open spec fn build_roots_spec(pkg: Option<Seq<char>>, config: Config) -> (Seq<char>, bool) {
    match pkg {
        Some(name) => if name == "all"@ || !config.incremental {
            (config.paths.src@, false)
        } else {
            (join_path(config.paths.src@, replace_char(name, '.', '/')), true)
        },
        None => (join_path(config.paths.src@, config.paths.src_nopkg@), false),
    }
}

/// The source roots of a build of `pkg`, as `build_roots_spec` says.
pub fn build_roots(pkg: Option<&String>, config: &Config) -> (r: BuildRoots)
    ensures
        (r.root@, r.with_default) == build_roots_spec(
            match pkg {
                Some(s) => Some(s@),
                None => None,
            },
            *config,
        ),
{
    match pkg {
        Some(name) => {
            if *name == String::from_str("all") || !config.incremental {
                BuildRoots { root: config.paths.src.clone(), with_default: false }
            } else {
                let dir = class_to_path(name.as_str());
                proof { assert(root_of(*config, PathType::SRC) == config.paths.src@); }
                BuildRoots { root: forge_sys_path(dir.as_str(), config, PathType::SRC), with_default: true }
            }
        },
        None => BuildRoots { root: default_sources(config), with_default: false },
    }
}

/// The directory of the sources without a package.
pub fn default_sources(config: &Config) -> (r: String)
    ensures
        r@ == join_path(config.paths.src@, config.paths.src_nopkg@),
{
    forge_sys_path(config.paths.src_nopkg.as_str(), config, PathType::SRC)
}

/// The file name of a release archive: `<jar>-<version>.jar`.
pub open spec fn archive_name(config: Config) -> Seq<char> {
    config.jar@ + "-"@ + config.version@ + ".jar"@
}

/// Where a release archive is written: its name under the releases directory.
pub fn release_archive_path(config: &Config) -> (r: String)
    ensures
        r@ == join_path(config.paths.releases@, archive_name(*config)),
{
    let name = config.jar.clone().concat("-").concat(config.version.as_str()).concat(".jar");
    forge_sys_path(name.as_str(), config, PathType::RELEASES)
}

/// Why a release could not be made.
#[derive(Debug)]
pub enum ReleaseError {
    /// The configuration names no entry point for the archive's manifest.
    NoEntryPoint,
}

/// The manifest of a release archive, naming the configured entry point.
pub fn manifest_text(config: &Config) -> (r: Result<String, ReleaseError>)
    ensures
        match config.entry_point {
            Some(e) => r is Ok && r->Ok_0@ == "Main-Class: "@ + e@ + "\n"@,
            None => r is Err,
        },
{
    match &config.entry_point {
        Some(e) => Ok(String::from_str("Main-Class: ").concat(e.as_str()).concat("\n")),
        None => Err(ReleaseError::NoEntryPoint),
    }
}

} // verus!

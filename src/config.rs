//! Project configuration: directory layout, extra tool arguments, build
//! settings and the cache that goes with them.
use vstd::prelude::*;
use crate::cache::Cache;

verus! {

/// The project's directories, relative to its root.
#[derive(Debug)]
pub struct PathCnf {
    pub src: String,
    pub src_nopkg: String,
    pub bin: String,
    pub lib: String,
    pub test: String,
    pub docs: String,
    pub releases: String,
}

impl Default for PathCnf {
    fn default() -> (r: PathCnf)
        ensures
            r.src@ == "src"@,
            r.src_nopkg@ == "default"@,
            r.bin@ == "bin"@,
            r.lib@ == "lib"@,
            r.test@ == "test"@,
            r.docs@ == "docs"@,
            r.releases@ == "releases"@,
    {
        PathCnf {
            src: String::from_str("src"),
            src_nopkg: String::from_str("default"),
            bin: String::from_str("bin"),
            lib: String::from_str("lib"),
            test: String::from_str("test"),
            docs: String::from_str("docs"),
            releases: String::from_str("releases"),
        }
    }
}

/// Extra arguments handed to the compiler, to invoked programs, to tests and to
/// the managed runtime.
#[derive(Debug)]
pub struct ArgCnf {
    pub compilation: Option<Vec<String>>,
    pub runtime: Option<Vec<String>>,
    pub test: Option<Vec<String>>,
    pub jvm: Option<Vec<String>>,
}

impl Default for ArgCnf {
    fn default() -> (r: ArgCnf)
        ensures
            r.compilation.is_none(),
            r.runtime.is_none(),
            r.test.is_none(),
            r.jvm.is_none(),
    {
        ArgCnf { compilation: None, runtime: None, test: None, jvm: None }
    }
}

/// The whole project configuration.
#[derive(Debug)]
pub struct Config {
    pub jar: String,
    pub compiler: String,
    pub entry_point: Option<String>,
    pub src_ext: String,
    pub classpath: Vec<String>,
    pub incremental: bool,
    pub paths: PathCnf,
    pub args: ArgCnf,
    pub pre_build_cmds: Vec<String>,
    pub post_build_cmds: Vec<String>,
    pub log_level: u8,
    pub version: String,
    pub cache: Cache,
}

impl Config {
    /// The configuration is usable: its cache holds one record per path.
    pub open spec fn wf(&self) -> bool {
        self.cache.wf()
    }
}

impl Default for Config {
    /// The default configuration, with an empty cache; a caller that has a
    /// persisted cache puts it in place.
    fn default() -> (r: Config)
        ensures
            r.wf(),
            r.jar@ == "out"@,
            r.compiler@ == "javac"@,
            r.entry_point.is_none(),
            r.src_ext@ == "java"@,
            r.classpath@.len() == 2,
            r.classpath@[0]@ == "bin"@,
            r.classpath@[1]@ == "lib/*"@,
            r.incremental,
            r.paths.src@ == "src"@,
            r.paths.src_nopkg@ == "default"@,
            r.paths.bin@ == "bin"@,
            r.paths.lib@ == "lib"@,
            r.paths.test@ == "test"@,
            r.paths.docs@ == "docs"@,
            r.paths.releases@ == "releases"@,
            r.args.compilation.is_none(),
            r.args.runtime.is_none(),
            r.args.test.is_none(),
            r.args.jvm.is_none(),
            r.pre_build_cmds@.len() == 0,
            r.post_build_cmds@.len() == 0,
            r.log_level == 0,
            r.version@ == "0.0.1"@,
            r.cache.files@.len() == 0,
            r.cache.releases@.len() == 0,
            r.cache.url_libs@.len() == 0,
    {
        let classpath = vec![String::from_str("bin"), String::from_str("lib/*")];
        Config {
            jar: String::from_str("out"),
            compiler: String::from_str("javac"),
            entry_point: None,
            src_ext: String::from_str("java"),
            classpath,
            incremental: true,
            paths: PathCnf::default(),
            args: ArgCnf::default(),
            pre_build_cmds: Vec::new(),
            post_build_cmds: Vec::new(),
            log_level: 0,
            version: String::from_str("0.0.1"),
            cache: Cache::default(),
        }
    }
}

} // verus!

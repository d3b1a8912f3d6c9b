//! The command line: which command the arguments ask for, and with what.
use vstd::prelude::*;
use crate::classpath::{push_all, views};

verus! {

/// A command asked for on the command line.
#[derive(Debug)]
pub enum CliCommand {
    Help,
    Init,
    InitPkg(String),
    /// Build `pkg` (`all` for every source); `full` for a non-incremental
    /// rebuild.
    Build { pkg: Option<String>, full: bool },
    Docgen(String),
    Curl(String),
    /// Run `entry`, else the configured entry point, with `extra` arguments
    /// where `--` was given.
    Run { entry: Option<String>, extra: Option<Vec<String>> },
    Test,
    Clean,
    Release,
    /// The command needs an argument that was not given.
    MissingArgument(String),
    /// No project configuration was found and the command needs one.
    NotAProject,
    Unrecognized(String),
    NoCommand,
}

/// The argument at `i`, if there is one.
pub open spec fn arg_at(args: Seq<Seq<char>>, i: int) -> Option<Seq<char>> {
    if 0 <= i < args.len() {
        Some(args[i])
    } else {
        None
    }
}

/// The index of the first `--` at or after index 2, if there is one.
pub open spec fn separator_at(args: Seq<Seq<char>>, i: int) -> bool {
    2 <= i < args.len() && args[i] == "--"@ && forall|j: int| 2 <= j < i ==> args[j] != "--"@
}

/// What `r` must be for the arguments `args` (the program name first), given
/// whether a project configuration was found.
pub open spec fn parsed(args: Seq<Seq<char>>, has_config: bool, r: CliCommand) -> bool {
    let word = arg_at(args, 1);
    let second = arg_at(args, 2);
    if !has_config {
        if word == Some("--help"@) {
            r is Help
        } else if word == Some("init"@) {
            r is Init
        } else {
            r is NotAProject
        }
    } else {
        match word {
            None => r is NoCommand,
            Some(w) => if w == "init"@ {
                r is Init
            } else if w == "help"@ || w == "--help"@ {
                r is Help
            } else if w == "initpkg"@ || w == "docgen"@ || w == "curl"@ {
                match second {
                    Some(a) => if w == "initpkg"@ {
                        r matches CliCommand::InitPkg(s) && s@ == a
                    } else if w == "docgen"@ {
                        r matches CliCommand::Docgen(s) && s@ == a
                    } else {
                        r matches CliCommand::Curl(s) && s@ == a
                    },
                    None => r matches CliCommand::MissingArgument(s) && s@ == w,
                }
            } else if w == "build"@ {
                match r {
                    CliCommand::Build { pkg, full } => full == args.contains("--re"@) && match pkg {
                        Some(p) => second == Some(p@),
                        None => second is None,
                    },
                    _ => false,
                }
            } else if w == "run"@ {
                match r {
                    CliCommand::Run { entry, extra } => (match entry {
                        Some(e) => second == Some(e@) && e@ != "--"@,
                        None => second is None || second == Some("--"@),
                    }) && (match extra {
                        Some(x) => exists|i: int|
                            separator_at(args, i) && views(x@) == args.subrange(i + 1, args.len() as int),
                        None => forall|i: int| 2 <= i < args.len() ==> args[i] != "--"@,
                    }),
                    _ => false,
                }
            } else if w == "test"@ {
                r is Test
            } else if w == "clean"@ {
                r is Clean
            } else if w == "release"@ {
                r is Release
            } else {
                r matches CliCommand::Unrecognized(s) && s@ == w
            },
        }
    }
}

/// Whether `s` is the word `w`.
fn is_word(s: &String, w: &str) -> (r: bool)
    ensures
        r == (s@ == w@),
{
    *s == String::from_str(w)
}

/// Whether any of the arguments is `w`.
fn has_word(args: &Vec<String>, w: &str) -> (r: bool)
    ensures
        r == views(args@).contains(w@),
{
    let mut i: usize = 0;
    while i < args.len()
        invariant
            i <= args@.len(),
            forall|j: int| 0 <= j < i ==> args@[j]@ != w@,
        decreases args@.len() - i,
    {
        if is_word(&args[i], w) {
            assert(views(args@)[i as int] == w@);
            return true;
        }
        i = i + 1;
    }
    assert forall|j: int| 0 <= j < views(args@).len() implies views(args@)[j] != w@ by {
        assert(args@[j]@ != w@);
    }
    false
}

/// The arguments after the first `--` from index 2 on, if one was given.
fn extra_args(args: &Vec<String>) -> (r: Option<Vec<String>>)
    ensures
        match r {
            Some(x) => exists|i: int| separator_at(views(args@), i) && views(x@) == views(args@).subrange(i + 1, args@.len() as int),
            None => forall|i: int| 2 <= i < args@.len() ==> args@[i]@ != "--"@,
        },
{
    let mut i: usize = 2;
    while i < args.len()
        invariant
            2 <= i,
            forall|j: int| 2 <= j < i ==> args@[j]@ != "--"@,
        decreases args@.len() - i,
    {
        if is_word(&args[i], "--") {
            let mut rest: Vec<String> = Vec::new();
            let mut k: usize = i + 1;
            while k < args.len()
                invariant
                    i < args@.len(),
                    i + 1 <= k <= args@.len(),
                    views(rest@) == views(args@).subrange(i + 1, k as int),
                decreases args@.len() - k,
            {
                let ghost prev = views(rest@);
                rest.push(args[k].clone());
                assert(views(rest@) =~= prev.push(args@[k as int]@));
                assert(views(rest@) =~= views(args@).subrange(i + 1, k + 1));
                k = k + 1;
            }
            assert(views(rest@) =~= views(args@).subrange(i + 1, args@.len() as int));
            assert(views(args@)[i as int] == "--"@);
            assert forall|j: int| 2 <= j < i implies views(args@)[j] != "--"@ by {
                assert(args@[j]@ != "--"@);
            }
            assert(separator_at(views(args@), i as int));
            return Some(rest);
        }
        i = i + 1;
    }
    None
}

/// The command that `args` (the program name first) ask for, given whether a
/// project configuration was found.
pub fn parse_args(args: &Vec<String>, has_config: bool) -> (r: CliCommand)
    ensures
        parsed(views(args@), has_config, r),
{
    let ghost a = views(args@);
    if args.len() < 2 {
        return if has_config { CliCommand::NoCommand } else { CliCommand::NotAProject };
    }
    assert(arg_at(a, 1) == Some(args@[1]@));
    let w = &args[1];
    if !has_config {
        return if is_word(w, "--help") {
            CliCommand::Help
        } else if is_word(w, "init") {
            CliCommand::Init
        } else {
            CliCommand::NotAProject
        };
    }
    let second: Option<String> = if args.len() > 2 { Some(args[2].clone()) } else { None };
    assert(match second {
        Some(s) => arg_at(a, 2) == Some(s@),
        None => arg_at(a, 2) is None,
    });
    if is_word(w, "init") {
        CliCommand::Init
    } else if is_word(w, "help") || is_word(w, "--help") {
        CliCommand::Help
    } else if is_word(w, "initpkg") || is_word(w, "docgen") || is_word(w, "curl") {
        match second {
            Some(s) => if is_word(w, "initpkg") {
                CliCommand::InitPkg(s)
            } else if is_word(w, "docgen") {
                CliCommand::Docgen(s)
            } else {
                CliCommand::Curl(s)
            },
            None => CliCommand::MissingArgument(w.clone()),
        }
    } else if is_word(w, "build") {
        CliCommand::Build { pkg: second, full: has_word(args, "--re") }
    } else if is_word(w, "run") {
        let entry = match second {
            Some(s) => if is_word(&s, "--") { None } else { Some(s) },
            None => None,
        };
        CliCommand::Run { entry, extra: extra_args(args) }
    } else if is_word(w, "test") {
        CliCommand::Test
    } else if is_word(w, "clean") {
        CliCommand::Clean
    } else if is_word(w, "release") {
        CliCommand::Release
    } else {
        CliCommand::Unrecognized(w.clone())
    }
}

} // verus!
